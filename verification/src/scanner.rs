//! The scanner: matches buffers against a signature set, unpacking archives
//! (also nested ones) and matching what they hold.

use crate::errors::Error;
use crate::file_type::{inferred_file_type, ArchiveKind, FileType};
use crate::scan_result::{all_names, lemma_all_names_within, names_within, strings_view, ScanResult};
use crate::signature::{rule_identifiers, SigSet};
use archive::{ArchiveEntry, ArchiveExtractor};
use std::sync::Arc;
use vstd::prelude::*;

verus! {

/// The archive crate's extractor; opaque here.
#[verifier::external_type_specification]
#[verifier::external_body]
pub struct ExArchiveExtractor(archive::ArchiveExtractor);

/// Whether scanning `buf` with `rules` can end with `outcome`: the
/// identifiers of the matching rules, or the scan's error. This is a relation,
/// not a function: besides the rules and the bytes the outcome can rest on the
/// clock (YARA's `time` module), and yara_x yields the matching rules in no
/// fixed order.
pub uninterp spec fn yara_scan_may_give(
    rules: yara_x::Rules,
    buf: Seq<u8>,
    outcome: Result<Seq<Seq<char>>, yara_x::errors::ScanError>,
) -> bool;

/// Runs a `yara_x::Scanner` made for the rules (`yara_x::Scanner::new`, which
/// only sets the scanner up) over the bytes (`yara_x::Scanner::scan`) and
/// hands out the identifiers of the matching rules. The outcome is one that
/// scanning these bytes with these rules can give, and each identifier is that
/// of a rule of the set: the scan yields rules of the set it was made for.
#[verifier::external_body]
fn matching_rule_names(rules: &Arc<yara_x::Rules>, buf: &[u8]) -> (r: Result<Vec<String>, yara_x::errors::ScanError>)
    ensures
        yara_scan_may_give(**rules, buf@, match r {
            Ok(names) => Ok(strings_view(names@)),
            Err(e) => Err(e),
        }),
        r matches Ok(names) ==> forall|i: int| 0 <= i < names.len() ==> rule_identifiers(**rules).contains(#[trigger] names@[i]@),
{
    match yara_x::Scanner::new(rules).scan(buf) {
        Ok(results) => Ok(results.matching_rules().map(|rule| rule.identifier().to_string()).collect()),
        Err(e) => Err(e),
    }
}

/// The size limit for each file that an archive extractor holds.
pub uninterp spec fn extractor_max_file_size(extractor: ArchiveExtractor) -> usize;

/// The size limit for all files together that an archive extractor holds.
pub uninterp spec fn extractor_max_total_size(extractor: ArchiveExtractor) -> usize;

/// Calls `archive::ArchiveExtractor::new`: an extractor with the crate's
/// default limits, 100 MB for each file and 1 GB in total.
#[verifier::external_body]
fn new_extractor() -> (e: ArchiveExtractor)
    ensures
        extractor_max_file_size(e) == 100 * 1024 * 1024,
        extractor_max_total_size(e) == 1024 * 1024 * 1024,
{
    ArchiveExtractor::new()
}

/// Calls `archive::ArchiveExtractor::with_max_file_size`, which sets the
/// size limit for each file and keeps the total limit.
#[verifier::external_body]
fn extractor_with_max_file_size(extractor: ArchiveExtractor, size: usize) -> (e: ArchiveExtractor)
    ensures
        extractor_max_file_size(e) == size,
        extractor_max_total_size(e) == extractor_max_total_size(extractor),
{
    extractor.with_max_file_size(size)
}

/// Calls `archive::ArchiveExtractor::with_max_total_size`, which sets the
/// total size limit and keeps the limit for each file.
#[verifier::external_body]
fn extractor_with_max_total_size(extractor: ArchiveExtractor, size: usize) -> (e: ArchiveExtractor)
    ensures
        extractor_max_file_size(e) == extractor_max_file_size(extractor),
        extractor_max_total_size(e) == size,
{
    extractor.with_max_total_size(size)
}

/// An entry of an unpacked archive, as the scanner reads it.
pub enum ArchiveMember {
    /// A regular file and its contents.
    File(Vec<u8>),
    /// A directory entry.
    Directory,
    /// A link entry; it carries no contents.
    Link,
}

/// Whether unpacking `buf` as an archive of the given kind, with the given
/// limits for each file and for all files together, can end with `outcome`:
/// the entries in the order the archive crate yields them, or the message of
/// its error. This is a relation, not a function: the outcome also rests on
/// whether memory could be reserved.
pub uninterp spec fn extraction_may_give(
    buf: Seq<u8>,
    kind: ArchiveKind,
    max_file_size: usize,
    max_total_size: usize,
    outcome: Result<Seq<ArchiveMember>, Seq<char>>,
) -> bool;

/// Calls `archive::ArchiveExtractor::extract` and hands out its entries in the
/// order the crate yields them, each as an `ArchiveMember`; a failure is handed
/// out as the error's message. The outcome is one that unpacking these bytes
/// as this kind, with the extractor's two limits, can give.
#[verifier::external_body]
fn extract_members(extractor: &ArchiveExtractor, buf: &[u8], kind: ArchiveKind) -> (r: Result<Vec<ArchiveMember>, String>)
    ensures
        extraction_may_give(
            buf@,
            kind,
            extractor_max_file_size(*extractor),
            extractor_max_total_size(*extractor),
            match r {
                Ok(members) => Ok(members@),
                Err(message) => Err(message@),
            },
        ),
{
    match extractor.extract(buf, kind.to_format()) {
        Ok(entries) => Ok(entries.into_iter().map(|entry| match entry {
            ArchiveEntry::File { data, .. } => ArchiveMember::File(data),
            ArchiveEntry::Directory { .. } => ArchiveMember::Directory,
            ArchiveEntry::Symlink { .. } => ArchiveMember::Link,
        }).collect()),
        Err(e) => Err(e.to_string()),
    }
}

/// Whether an I/O error is of kind `std::io::ErrorKind::InvalidData`.
pub uninterp spec fn is_invalid_data(error: std::io::Error) -> bool;

/// Calls `std::io::Error::new` with `ErrorKind::InvalidData` and the message;
/// the error it gives is of that kind.
#[verifier::external_body]
fn invalid_data(message: String) -> (e: std::io::Error)
    ensures
        is_invalid_data(e),
{
    std::io::Error::new(std::io::ErrorKind::InvalidData, message)
}

/// How many archives deep the scanner unpacks archives held in archives.
pub const ARCHIVE_NESTING_LIMIT: u32 = 64;

/// The contents of the regular files among unpacked archive entries, in
/// entry order; directories and links add nothing.
pub open spec fn member_files(members: Seq<ArchiveMember>) -> Seq<Seq<u8>>
    decreases members.len(),
{
    if members.len() == 0 {
        Seq::empty()
    } else {
        member_files(members.drop_last()) + match members.last() {
            ArchiveMember::File(data) => seq![data@],
            _ => Seq::<Seq<u8>>::empty(),
        }
    }
}

/// The results of a sequence of outcomes that are all `Ok`.
pub open spec fn ok_results(outcomes: Seq<Result<ScanResult, Error>>) -> Seq<ScanResult> {
    outcomes.map_values(
        |o: Result<ScanResult, Error>|
            match o {
                Ok(result) => result,
                Err(_) => ScanResult::Clean,
            },
    )
}

/// How an archive's outcome follows from the outcomes of scanning its
/// `file_count` files in order, which stop at the first failure: that
/// failure's error; otherwise, when every file was scanned, the detections of
/// all files, in order, `Clean` exactly when there are none.
pub open spec fn combined_outcome(
    outcomes: Seq<Result<ScanResult, Error>>,
    file_count: nat,
    r: Result<ScanResult, Error>,
) -> bool {
    &&& outcomes.len() <= file_count
    &&& forall|i: int| 0 <= i < outcomes.len() - 1 ==> (#[trigger] outcomes[i]) is Ok
    &&& if outcomes.len() > 0 && outcomes.last() is Err {
        r == outcomes.last()
    } else {
        &&& outcomes.len() == file_count
        &&& r matches Ok(result)
        &&& result.well_formed()
        &&& result.names() == all_names(ok_results(outcomes))
        &&& (result is Clean <==> all_names(ok_results(outcomes)).len() == 0)
    }
}

/// Whether `r` is an `IoError` of kind `InvalidData`.
pub open spec fn is_invalid_data_error(r: Result<ScanResult, Error>) -> bool {
    r matches Err(err) && err is IoError && is_invalid_data(err->IoError_0)
}

/// What matching `buf` as it is with `rules` can give: the result of the
/// identifiers a YARA scan can report, or the scan's error.
pub open spec fn plain_scan_gives(rules: yara_x::Rules, buf: Seq<u8>, r: Result<ScanResult, Error>) -> bool {
    match r {
        Ok(result) => result.well_formed() && yara_scan_may_give(rules, buf, Ok(result.names())),
        Err(err) => err is ScanError && yara_scan_may_give(rules, buf, Err(err->ScanError_0)),
    }
}

/// What scanning `buf`, of the given file type, with `rules` and the given
/// extraction limits, `depth` archives deep at most, can give. An archive is
/// unpacked with the limits; a failure to unpack it, or an archive met with
/// no depth left, is an `IoError` of kind `InvalidData`; otherwise the files
/// it holds are scanned in order, each by its inferred type, and the
/// archive's outcome follows from theirs (`combined_outcome`). Any other
/// buffer is matched as it is.
pub open spec fn scan_gives(
    rules: yara_x::Rules,
    max_file_size: usize,
    max_total_size: usize,
    buf: Seq<u8>,
    file_type: Option<FileType>,
    depth: nat,
    r: Result<ScanResult, Error>,
) -> bool
    decreases depth,
{
    match file_type {
        Some(FileType::Archive(kind)) => if depth == 0 {
            is_invalid_data_error(r)
        } else {
            ||| exists|message: Seq<char>|
                #[trigger] extraction_may_give(buf, kind, max_file_size, max_total_size, Err(message))
                    && is_invalid_data_error(r)
            ||| exists|members: Seq<ArchiveMember>, outcomes: Seq<Result<ScanResult, Error>>|
                #[trigger] extraction_may_give(buf, kind, max_file_size, max_total_size, Ok(members))
                    && #[trigger] combined_outcome(outcomes, member_files(members).len(), r) && forall|i: int|
                    0 <= i < outcomes.len() ==> scan_gives(
                        rules,
                        max_file_size,
                        max_total_size,
                        member_files(members)[i],
                        inferred_file_type(member_files(members)[i]),
                        (depth - 1) as nat,
                        #[trigger] outcomes[i],
                    )
        },
        _ => plain_scan_gives(rules, buf, r),
    }
}

/// An archive's outcome follows from the entries its extraction can give and
/// the outcomes of scanning the files among them, in order.
pub proof fn lemma_archive_scan_gives(
    rules: yara_x::Rules,
    max_file_size: usize,
    max_total_size: usize,
    buf: Seq<u8>,
    kind: ArchiveKind,
    depth: nat,
    members: Seq<ArchiveMember>,
    outcomes: Seq<Result<ScanResult, Error>>,
    r: Result<ScanResult, Error>,
)
    requires
        depth > 0,
        extraction_may_give(buf, kind, max_file_size, max_total_size, Ok(members)),
        combined_outcome(outcomes, member_files(members).len(), r),
        forall|j: int|
            0 <= j < outcomes.len() ==> scan_gives(
                rules,
                max_file_size,
                max_total_size,
                member_files(members)[j],
                inferred_file_type(member_files(members)[j]),
                (depth - 1) as nat,
                #[trigger] outcomes[j],
            ),
    ensures
        scan_gives(rules, max_file_size, max_total_size, buf, Some(FileType::Archive(kind)), depth, r),
{
}

/// The regular files of the first `i` entries are the first files of all
/// entries, and the next entry adds its contents when it is a file.
pub proof fn lemma_member_files_prefix(members: Seq<ArchiveMember>, i: int)
    requires
        0 <= i <= members.len(),
    ensures
        member_files(members.take(i)).len() <= member_files(members).len(),
        forall|k: int| 0 <= k < member_files(members.take(i)).len()
            ==> #[trigger] member_files(members.take(i))[k] == member_files(members)[k],
    decreases members.len(),
{
    if i == members.len() {
        assert(members.take(i) =~= members);
    } else {
        let init = members.drop_last();
        assert(members.take(i) =~= init.take(i));
        lemma_member_files_prefix(init, i);
        assert(member_files(members) == member_files(init) + match members.last() {
            ArchiveMember::File(data) => seq![data@],
            _ => Seq::<Seq<u8>>::empty(),
        });
    }
}

/// What every scan outcome satisfies, for a buffer of the given file type and
/// a signature set whose rules have the given identifiers: a result is clean
/// exactly when it reports no detection, each detection is the identifier of
/// a rule of the set, a scan never fails on signatures, and only a buffer
/// that is unpacked as an archive can fail to be read.
pub open spec fn scan_outcome(
    r: Result<ScanResult, Error>,
    file_type: Option<FileType>,
    rule_names: Seq<Seq<char>>,
) -> bool {
    match r {
        Ok(result) => result.well_formed() && names_within(result.names(), rule_names),
        Err(Error::SignatureError(_)) => false,
        Err(Error::ScanError(_)) => true,
        Err(Error::IoError(_)) => file_type matches Some(FileType::Archive(_)),
    }
}

/// A signature set without rules reports every buffer clean: any successful
/// scan outcome for a set with no rule identifiers is `Clean`.
pub proof fn lemma_no_rules_scan_clean(r: Result<ScanResult, Error>, file_type: Option<FileType>)
    requires
        scan_outcome(r, file_type, Seq::<Seq<char>>::empty()),
    ensures
        r matches Ok(result) ==> result is Clean,
{
    if let Ok(result) = r {
        if let ScanResult::Malicious(detections) = result {
            assert(result.names()[0] == detections@[0]@);
        }
    }
}

/// Scans buffers for malicious content with a signature set.
pub struct Scanner {
    sig_set: SigSet,
    max_extracted_size: usize,
    max_total_extracted_size: usize,
}

impl Scanner {
    /// The signature set the scanner matches with.
    pub closed spec fn signatures(&self) -> Seq<Seq<char>> {
        self.sig_set@
    }

    /// The identifiers of the rules the scanner matches with.
    pub closed spec fn rule_names(&self) -> Seq<Seq<char>> {
        self.sig_set.rule_names()
    }

    /// The size limit for each file unpacked from an archive.
    pub closed spec fn file_size_limit(&self) -> usize {
        self.max_extracted_size
    }

    /// The size limit for all files unpacked from one archive together.
    pub closed spec fn total_size_limit(&self) -> usize {
        self.max_total_extracted_size
    }

    /// The rules the scanner matches with.
    pub closed spec fn compiled_rules(&self) -> yara_x::Rules {
        self.sig_set.compiled_rules()
    }

    /// What scanning `buf`, of the given file type, with this scanner and
    /// `depth` archives deep at most, can give.
    pub open spec fn scan_gives(
        &self,
        buf: Seq<u8>,
        file_type: Option<FileType>,
        depth: nat,
        r: Result<ScanResult, Error>,
    ) -> bool {
        scan_gives(self.compiled_rules(), self.file_size_limit(), self.total_size_limit(), buf, file_type, depth, r)
    }

    /// A successful scan of `buf` reports exactly the rules that a YARA scan
    /// of those bytes with this scanner's rules can report, and a failed one
    /// fails with that scan's error.
    pub open spec fn matched_as_it_is(&self, buf: Seq<u8>, r: Result<ScanResult, Error>) -> bool {
        &&& r matches Ok(result) ==> yara_scan_may_give(self.compiled_rules(), buf, Ok(result.names()))
        &&& r matches Err(e) ==> e is ScanError && yara_scan_may_give(self.compiled_rules(), buf, Err(e->ScanError_0))
    }

    /// `buf` was unpacked as an archive of the given kind with exactly this
    /// scanner's limit for each file and for all files together: the
    /// extraction gave entries, or it failed and the scan is an `IoError` of
    /// kind `InvalidData`.
    pub open spec fn unpacked_with_limits(&self, buf: Seq<u8>, kind: ArchiveKind, r: Result<ScanResult, Error>) -> bool {
        ||| exists|members: Seq<ArchiveMember>|
            #[trigger] extraction_may_give(buf, kind, self.file_size_limit(), self.total_size_limit(), Ok(members))
        ||| is_invalid_data_error(r) && exists|message: Seq<char>|
            #[trigger] extraction_may_give(buf, kind, self.file_size_limit(), self.total_size_limit(), Err(message))
    }

    /// Create a new Scanner from a `SigSet` with the default size limits:
    /// 500 MB for each extracted file, 2 GB for all of them.
    pub fn new(sig_set: SigSet) -> (s: Scanner)
        ensures
            s.signatures() == sig_set@,
            s.rule_names() == sig_set.rule_names(),
            s.compiled_rules() == sig_set.compiled_rules(),
            s.file_size_limit() == 500 * 1024 * 1024,
            s.total_size_limit() == 2 * 1024 * 1024 * 1024,
    {
        Scanner { sig_set, max_extracted_size: 500 * 1024 * 1024, max_total_extracted_size: 2 * 1024 * 1024 * 1024 }
    }

    /// Set the maximum size for individual extracted files.
    pub fn with_max_extracted_size(self, size: usize) -> (s: Scanner)
        ensures
            s.signatures() == self.signatures(),
            s.rule_names() == self.rule_names(),
            s.compiled_rules() == self.compiled_rules(),
            s.file_size_limit() == size,
            s.total_size_limit() == self.total_size_limit(),
    {
        let mut s = self;
        s.max_extracted_size = size;
        s
    }

    /// Set the maximum total size for all extracted files.
    pub fn with_max_total_extracted_size(self, size: usize) -> (s: Scanner)
        ensures
            s.signatures() == self.signatures(),
            s.rule_names() == self.rule_names(),
            s.compiled_rules() == self.compiled_rules(),
            s.file_size_limit() == self.file_size_limit(),
            s.total_size_limit() == size,
    {
        let mut s = self;
        s.max_total_extracted_size = size;
        s
    }

    /// The maximum size for individual extracted files.
    pub fn max_extracted_size(&self) -> (size: usize)
        ensures
            size == self.file_size_limit(),
    {
        self.max_extracted_size
    }

    /// The maximum total size for all extracted files.
    pub fn max_total_extracted_size(&self) -> (size: usize)
        ensures
            size == self.total_size_limit(),
    {
        self.max_total_extracted_size
    }

    /// The signature set the scanner matches with.
    pub fn sig_set(&self) -> (s: &SigSet)
        ensures
            s@ == self.signatures(),
    {
        &self.sig_set
    }

    /// Scan a buffer of data for malicious content.
    ///
    /// Detects archives from their leading bytes and unpacks them before
    /// scanning, recursively; any other buffer is matched as it is. An archive
    /// held more than `ARCHIVE_NESTING_LIMIT` archives deep is an `IoError`.
    pub fn scan_buf(&self, buf: &[u8]) -> (r: Result<ScanResult, Error>)
        ensures
            self.scan_gives(buf@, inferred_file_type(buf@), ARCHIVE_NESTING_LIMIT as nat, r),
            scan_outcome(r, inferred_file_type(buf@), self.rule_names()),
            !(inferred_file_type(buf@) matches Some(FileType::Archive(_))) ==> self.matched_as_it_is(buf@, r),
            inferred_file_type(buf@) matches Some(FileType::Archive(kind)) ==> self.unpacked_with_limits(buf@, kind, r),
    {
        let r = self.scan_buf_within(buf, ARCHIVE_NESTING_LIMIT);
        proof {
            match inferred_file_type(buf@) {
                Some(FileType::Archive(kind)) => {
                    law_archive_is_unpacked_with_scanner_limits(*self, buf@, kind, ARCHIVE_NESTING_LIMIT as nat, r);
                },
                _ => {
                    law_plain_buffer_is_matched_as_it_is(*self, buf@, inferred_file_type(buf@), ARCHIVE_NESTING_LIMIT as nat, r);
                },
            }
        }
        r
    }

    /// Scan a buffer with an explicitly specified file type, skipping detection.
    pub fn scan_buf_ft(&self, buf: &[u8], file_type: &FileType) -> (r: Result<ScanResult, Error>)
        ensures
            self.scan_gives(buf@, Some(*file_type), ARCHIVE_NESTING_LIMIT as nat, r),
            scan_outcome(r, Some(*file_type), self.rule_names()),
            *file_type is Other ==> self.matched_as_it_is(buf@, r),
            *file_type matches FileType::Archive(kind) ==> self.unpacked_with_limits(buf@, kind, r),
    {
        let r = self.scan_buf_ft_within(buf, file_type, ARCHIVE_NESTING_LIMIT);
        proof {
            match *file_type {
                FileType::Archive(kind) => {
                    law_archive_is_unpacked_with_scanner_limits(*self, buf@, kind, ARCHIVE_NESTING_LIMIT as nat, r);
                },
                FileType::Other => {
                    law_plain_buffer_is_matched_as_it_is(*self, buf@, Some(*file_type), ARCHIVE_NESTING_LIMIT as nat, r);
                },
            }
        }
        r
    }

    fn scan_buf_within(&self, buf: &[u8], depth_left: u32) -> (r: Result<ScanResult, Error>)
        ensures
            self.scan_gives(buf@, inferred_file_type(buf@), depth_left as nat, r),
            scan_outcome(r, inferred_file_type(buf@), self.rule_names()),
        decreases depth_left, 2nat,
    {
        match FileType::infer(buf) {
            Some(file_type) => {
                if let Some(_) = file_type.archive_kind() {
                    return self.scan_buf_ft_within(buf, &file_type, depth_left);
                }
            },
            None => {},
        }
        self.scan_plain(buf)
    }

    fn scan_buf_ft_within(&self, buf: &[u8], file_type: &FileType, depth_left: u32) -> (r: Result<ScanResult, Error>)
        ensures
            self.scan_gives(buf@, Some(*file_type), depth_left as nat, r),
            scan_outcome(r, Some(*file_type), self.rule_names()),
        decreases depth_left, 1nat,
    {
        match file_type.archive_kind() {
            Some(kind) => self.scan_archive(buf, kind, depth_left),
            None => self.scan_plain(buf),
        }
    }

    /// Matches the bytes as they are against the signature set.
    fn scan_plain(&self, buf: &[u8]) -> (r: Result<ScanResult, Error>)
        ensures
            plain_scan_gives(self.compiled_rules(), buf@, r),
            r matches Ok(result) ==> result.well_formed() && names_within(result.names(), self.rule_names()),
            r matches Err(e) ==> e is ScanError,
    {
        match matching_rule_names(self.sig_set.rules(), buf) {
            Ok(names) => {
                let result = ScanResult::from_matching_rules(names);
                assert(names_within(result.names(), self.rule_names()));
                Ok(result)
            },
            Err(e) => Err(Error::ScanError(e)),
        }
    }

    /// Unpacks the archive and scans each file it holds, in order; the first
    /// file that fails to scan fails the archive, otherwise the detections are
    /// those of the files, in the order the archive holds them.
    fn scan_archive(&self, buf: &[u8], kind: ArchiveKind, depth_left: u32) -> (r: Result<ScanResult, Error>)
        ensures
            self.scan_gives(buf@, Some(FileType::Archive(kind)), depth_left as nat, r),
            scan_outcome(r, Some(FileType::Archive(kind)), self.rule_names()),
        decreases depth_left, 0nat,
    {
        if depth_left == 0 {
            return Err(Error::IoError(invalid_data("archives are nested too deeply".to_string())));
        }
        let extractor = extractor_with_max_total_size(
            extractor_with_max_file_size(new_extractor(), self.max_extracted_size),
            self.max_total_extracted_size,
        );
        let ghost rules = self.compiled_rules();
        let ghost max_file = self.file_size_limit();
        let ghost max_total = self.total_size_limit();
        let members = match extract_members(&extractor, buf, kind) {
            Ok(members) => members,
            Err(message) => {
                assert(extraction_may_give(buf@, kind, max_file, max_total, Err(message@)));
                return Err(Error::IoError(invalid_data(message)));
            },
        };
        assert(extraction_may_give(buf@, kind, max_file, max_total, Ok(members@)));
        let ghost files = member_files(members@);
        let ghost mut outcomes: Seq<Result<ScanResult, Error>> = Seq::empty();
        let mut results: Vec<ScanResult> = Vec::new();
        let n = members.len();
        for i in 0..n
            invariant
                n == members.len(),
                depth_left > 0,
                rules == self.compiled_rules(),
                max_file == self.file_size_limit(),
                max_total == self.total_size_limit(),
                files == member_files(members@),
                extraction_may_give(buf@, kind, max_file, max_total, Ok(members@)),
                outcomes.len() == member_files(members@.take(i as int)).len(),
                results@ == ok_results(outcomes),
                forall|j: int| 0 <= j < outcomes.len() ==> (#[trigger] outcomes[j]) is Ok,
                forall|j: int|
                    0 <= j < outcomes.len() ==> #[trigger] scan_gives(
                        rules,
                        max_file,
                        max_total,
                        files[j],
                        inferred_file_type(files[j]),
                        (depth_left - 1) as nat,
                        outcomes[j],
                    ),
                forall|j: int| 0 <= j < results.len() ==> (#[trigger] results@[j]).well_formed(),
                forall|j: int| 0 <= j < results.len() ==> names_within((#[trigger] results@[j]).names(), self.rule_names()),
        {
            proof {
                lemma_member_files_prefix(members@, i + 1);
                assert(members@.take(i + 1).drop_last() =~= members@.take(i as int));
                assert(members@.take(i + 1).last() == members@[i as int]);
            }
            match &members[i] {
                ArchiveMember::File(data) => {
                    let ghost position = outcomes.len() as int;
                    assert(member_files(members@.take(i + 1)) == member_files(members@.take(i as int)) + seq![data@]);
                    assert(files[position] == data@) by {
                        assert(member_files(members@.take(i + 1))[position] == data@);
                    }
                    let outcome = self.scan_buf_within(data.as_slice(), depth_left - 1);
                    let ghost previous = outcomes;
                    proof {
                        outcomes = outcomes.push(outcome);
                        assert forall|j: int| 0 <= j < outcomes.len() implies #[trigger] scan_gives(
                            rules,
                            max_file,
                            max_total,
                            files[j],
                            inferred_file_type(files[j]),
                            (depth_left - 1) as nat,
                            outcomes[j],
                        ) by {
                            if j < position {
                                assert(outcomes[j] == previous[j]);
                            }
                        }
                    }
                    match outcome {
                        Ok(result) => {
                            results.push(result);
                            assert(results@ =~= ok_results(outcomes));
                        },
                        Err(e) => {
                            let r: Result<ScanResult, Error> = Err(e);
                            assert forall|j: int| 0 <= j < outcomes.len() - 1 implies (#[trigger] outcomes[j]) is Ok by {
                                assert(outcomes[j] == previous[j]);
                            }
                            assert(combined_outcome(outcomes, files.len(), r));
                            proof {
                                lemma_archive_scan_gives(rules, max_file, max_total, buf@, kind, depth_left as nat, members@, outcomes, r);
                            }
                            return r;
                        },
                    }
                },
                _ => {
                    assert(member_files(members@.take(i + 1)) =~= member_files(members@.take(i as int)));
                },
            }
        }
        assert(members@.take(n as int) =~= members@);
        proof {
            lemma_all_names_within(results@, self.rule_names());
        }
        let r: Result<ScanResult, Error> = Ok(ScanResult::merge(results));
        assert(combined_outcome(outcomes, files.len(), r));
        proof {
            lemma_archive_scan_gives(rules, max_file, max_total, buf@, kind, depth_left as nat, members@, outcomes, r);
        }
        r
    }
}

/// A buffer that is not taken as an archive is matched as it is, whatever its
/// size (the empty buffer too): a successful scan reports exactly the rules
/// that a YARA scan of those bytes with the scanner's rules can report, clean
/// exactly when there are none, and a failed one fails with that scan's error.
pub proof fn law_plain_buffer_is_matched_as_it_is(
    s: Scanner,
    buf: Seq<u8>,
    file_type: Option<FileType>,
    depth: nat,
    r: Result<ScanResult, Error>,
)
    requires
        !(file_type matches Some(FileType::Archive(_))),
        s.scan_gives(buf, file_type, depth, r),
    ensures
        r matches Ok(result) ==> yara_scan_may_give(s.compiled_rules(), buf, Ok(result.names())) && (
        result is Clean <==> result.names().len() == 0),
        r matches Err(e) ==> e is ScanError && yara_scan_may_give(s.compiled_rules(), buf, Err(e->ScanError_0)),
{
    if let Ok(result) = r {
        if let ScanResult::Malicious(detections) = result {
            assert(result.names()[0] == detections@[0]@);
        }
    }
}

/// An archive met with nesting depth left is unpacked with exactly the
/// scanner's two limits (the one set for each file, and the one set for all
/// files together). If that fails the scan is an `IoError` of kind
/// `InvalidData`. Otherwise every regular file the archive holds is scanned,
/// in entry order, by its own inferred type with one level of depth less,
/// until one fails: a failure is the archive's outcome; otherwise every file
/// was scanned, and the archive reports the detections of all its files in
/// order, clean exactly when there are none.
pub proof fn law_archive_is_unpacked_with_scanner_limits(
    s: Scanner,
    buf: Seq<u8>,
    kind: ArchiveKind,
    depth: nat,
    r: Result<ScanResult, Error>,
)
    requires
        depth > 0,
        s.scan_gives(buf, Some(FileType::Archive(kind)), depth, r),
    ensures
        ({
        ||| is_invalid_data_error(r) && exists|message: Seq<char>|
            #[trigger] extraction_may_give(buf, kind, s.file_size_limit(), s.total_size_limit(), Err(message))
        ||| exists|members: Seq<ArchiveMember>, outcomes: Seq<Result<ScanResult, Error>>|
            #![trigger extraction_may_give(buf, kind, s.file_size_limit(), s.total_size_limit(), Ok(members)), outcomes.len()]
            {
                &&& extraction_may_give(buf, kind, s.file_size_limit(), s.total_size_limit(), Ok(members))
                &&& outcomes.len() <= member_files(members).len()
                &&& forall|i: int|
                    0 <= i < outcomes.len() ==> s.scan_gives(
                        member_files(members)[i],
                        inferred_file_type(member_files(members)[i]),
                        (depth - 1) as nat,
                        #[trigger] outcomes[i],
                    )
                &&& forall|i: int| 0 <= i < outcomes.len() - 1 ==> (#[trigger] outcomes[i]) is Ok
                &&& r is Err ==> outcomes.len() > 0 && outcomes.last() == r
                &&& r matches Ok(result) ==> {
                    &&& outcomes.len() == member_files(members).len()
                    &&& forall|i: int| 0 <= i < outcomes.len() ==> (#[trigger] outcomes[i]) is Ok
                    &&& result.names() == all_names(ok_results(outcomes))
                    &&& (result is Clean <==> result.names().len() == 0)
                }
            }
        }),
{
    let rules = s.compiled_rules();
    let max_file = s.file_size_limit();
    let max_total = s.total_size_limit();
    if exists|message: Seq<char>|
        #[trigger] extraction_may_give(buf, kind, max_file, max_total, Err(message)) && is_invalid_data_error(r) {
        let message = choose|message: Seq<char>|
            #[trigger] extraction_may_give(buf, kind, max_file, max_total, Err(message)) && is_invalid_data_error(r);
        assert(extraction_may_give(buf, kind, max_file, max_total, Err(message)));
    } else {
        let (members, outcomes) = choose|members: Seq<ArchiveMember>, outcomes: Seq<Result<ScanResult, Error>>|
            #[trigger] extraction_may_give(buf, kind, max_file, max_total, Ok(members))
                && #[trigger] combined_outcome(outcomes, member_files(members).len(), r) && forall|i: int|
                0 <= i < outcomes.len() ==> scan_gives(
                    rules,
                    max_file,
                    max_total,
                    member_files(members)[i],
                    inferred_file_type(member_files(members)[i]),
                    (depth - 1) as nat,
                    #[trigger] outcomes[i],
                );
        if r is Ok {
            assert forall|i: int| 0 <= i < outcomes.len() implies (#[trigger] outcomes[i]) is Ok by {
                if i < outcomes.len() - 1 {
                } else {
                    assert(outcomes[i] == outcomes.last());
                }
            }
        }
        assert(extraction_may_give(buf, kind, s.file_size_limit(), s.total_size_limit(), Ok(members)));
    }
}

/// An archive met with no nesting depth left is not unpacked: the scan is an
/// `IoError` of kind `InvalidData`.
pub proof fn law_archive_past_nesting_limit_is_invalid_data(
    s: Scanner,
    buf: Seq<u8>,
    kind: ArchiveKind,
    r: Result<ScanResult, Error>,
)
    requires
        s.scan_gives(buf, Some(FileType::Archive(kind)), 0, r),
    ensures
        r matches Err(Error::IoError(e)) && is_invalid_data(e),
{
}

impl From<SigSet> for Scanner {
    fn from(sig_set: SigSet) -> (s: Scanner)
        ensures
            s.signatures() == sig_set@,
            s.rule_names() == sig_set.rule_names(),
            s.compiled_rules() == sig_set.compiled_rules(),
            s.file_size_limit() == 500 * 1024 * 1024,
            s.total_size_limit() == 2 * 1024 * 1024 * 1024,
    {
        Scanner::new(sig_set)
    }
}

/// `from` is not tied to a spec function; its own `ensures` says what it returns.
impl vstd::std_specs::convert::FromSpecImpl<SigSet> for Scanner {
    open spec fn obeys_from_spec() -> bool {
        false
    }

    open spec fn from_spec(sig_set: SigSet) -> Scanner {
        choose|s: Scanner| s.signatures() == sig_set@
    }
}

} // verus!
