//! Looking through locked packages.
//!
//! A package that cannot be looked at without running something blocks the build; every other one
//! is fetched, held against its checksum and read entry by entry.

use vstd::prelude::*;
use vstd::utf8::encode_utf8;

use crate::fault::{alone, checked, fits, Fault, Trouble};
use crate::path::{absolute, file_name, is_absolute, last_name};
use crate::protection::dependency::archive::{
    about, archive_path_fault, checksum_fault, coordinate_fault, from_registry, is_crates_io_source,
    locked_in, locked_packages, locked_views, message_about, validate_archive_path,
    validate_package_coordinate, verify_archive_checksum, LockedCargoPackage, LockedView,
};
use crate::protection::dependency::tarball::{
    archive_entries, archive_items, entry_is_dir, entry_is_file, entry_model, entry_path,
    entry_size, left_items, next_entry, open_archive, read_entry, CrateEntry, EntryView, ItemView,
};
use crate::protection::dependency::MAX_LOCKED_PACKAGES;
use crate::data::toml_reading;
use crate::digest::digestible;
use crate::text::bytes::{lossy, lossy_text, strict, utf8_complaint, utf8_text};
use crate::text::number::{count_text, decimal, decimal_text};
use crate::text::{concat2, concat3, concat5, same_text};

verus! {

/// The largest number of entries of an archive.
pub const MAX_ARCHIVE_ENTRIES: usize = 20000;

/// The largest file that is looked at, in bytes.
pub const MAX_ARCHIVE_FILE_BYTES: u64 = 16777216;

/// The largest total of the sizes in an archive, in bytes.
pub const MAX_ARCHIVE_EXPANDED_BYTES: u64 = 268435456;

/// The largest total of what one scan downloads, in bytes.
pub const MAX_SCAN_DOWNLOAD_BYTES: u64 = 536870912;

/// A file of a package that is looked at: its manifest or its build script.
#[derive(Debug)]
pub struct AuditFile {
    pub display_path: String,
    pub is_manifest: bool,
    pub content: String,
}

/// The model of a file that is looked at.
pub struct AuditView {
    pub display_path: Seq<char>,
    pub is_manifest: bool,
    pub content: Seq<char>,
}

impl View for AuditFile {
    type V = AuditView;

    open spec fn view(&self) -> AuditView {
        AuditView {
            display_path: self.display_path@,
            is_manifest: self.is_manifest,
            content: self.content@,
        }
    }
}

/// The models of a list of files.
pub open spec fn audit_views(list: Seq<AuditFile>) -> Seq<AuditView> {
    list.map_values(|f: AuditFile| f@)
}

/// How far an archive has been read.
pub struct Progress {
    pub entries: nat,
    pub expanded: nat,
    pub saw_manifest: bool,
    pub files: Seq<AuditView>,
}

/// An archive of which nothing has been read.
pub open spec fn at_start() -> Progress {
    Progress { entries: 0, expanded: 0, saw_manifest: false, files: Seq::empty() }
}

/// What an entry leads to: reading on, or a refusal of the archive.
pub enum Reading {
    On(Progress),
    Refused(Trouble),
}

/// The directory that a package's archive unpacks to.
pub open spec fn package_root(package: LockedView) -> Seq<char> {
    package.name + "-"@ + package.version
}

/// How a file of a package is shown.
pub open spec fn shown_path(package: LockedView, path: Seq<char>) -> Seq<char> {
    "crate:"@ + package.name + "@"@ + package.version + "/"@ + path
}

/// Whether a file is looked at: a manifest or a build script.
pub open spec fn is_audited(path: Seq<char>) -> bool {
    last_name(path) == Some("Cargo.toml"@) || last_name(path) == Some("build.rs"@)
}

/// Whether a path, as bytes, is a given directory or leads into it.
pub open spec fn starts_in(path: Seq<u8>, root: Seq<u8>) -> bool {
    &&& root.len() <= path.len()
    &&& path.take(root.len() as int) == root
    &&& root.len() < path.len() ==> path[root.len() as int] == 0x2f
}

/// What is wrong with the place of an entry: too many came before it, or its path leads out of the
/// package. The package's directory is told by its bytes, so a name that is no text never is it.
pub open spec fn place_fault(package: LockedView, entries: nat, bytes: Seq<u8>) -> Option<
    Seq<char>,
> {
    let path = lossy(bytes);
    let root = package_root(package);
    if entries > MAX_ARCHIVE_ENTRIES {
        Some(
            about(
                "crate 归档条目超过 "@ + decimal(MAX_ARCHIVE_ENTRIES as nat) + " 个："@,
                package,
            ),
        )
    } else if !absolute(path) && !starts_in(bytes, encode_utf8(root)) {
        Some("crate 归档根目录异常："@ + path)
    } else {
        archive_path_fault(path, root)
    }
}

fn path_starts_in(path: &Vec<u8>, root: &str) -> (r: bool)
    ensures
        r == starts_in(path@, encode_utf8(root@)),
{
    let wanted = root.as_bytes();
    if path.len() < wanted.len() {
        return false;
    }
    let mut i: usize = 0;
    while i < wanted.len()
        invariant
            i <= wanted@.len() <= path@.len(),
            wanted@ == encode_utf8(root@),
            forall|j: int| 0 <= j < i ==> path@[j] == wanted@[j],
        decreases wanted@.len() - i,
    {
        if path[i] != wanted[i] {
            assert(path@.take(wanted@.len() as int)[i as int] == path@[i as int]);
            return false;
        }
        i = i + 1;
    }
    assert(path@.take(wanted@.len() as int) =~= wanted@);
    path.len() == wanted.len() || path[wanted.len()] == 0x2f
}

/// What reading a file that is looked at leads to.
pub open spec fn audited(
    package: LockedView,
    at: Progress,
    entry: EntryView,
    size: u64,
) -> Reading {
    let path = lossy(entry.path);
    if size > MAX_ARCHIVE_FILE_BYTES {
        Reading::Refused(Trouble::Plain("crate 静态审计文件超过大小上限："@ + path))
    } else {
        match entry.content {
            None => Reading::Refused(Trouble::Outside),
            Some(bytes) => match strict(bytes) {
                None => Reading::Refused(
                    Trouble::Because(
                        "crate 静态审计文件不是 UTF-8："@ + path,
                        utf8_complaint(bytes),
                    ),
                ),
                Some(content) => {
                    let is_manifest = last_name(path) == Some("Cargo.toml"@);
                    let file = AuditView {
                        display_path: shown_path(package, path),
                        is_manifest,
                        content,
                    };
                    Reading::On(
                        Progress {
                            saw_manifest: at.saw_manifest || is_manifest,
                            files: at.files.push(file),
                            ..at
                        },
                    )
                },
            },
        }
    }
}

/// What reading an entry leads to.
pub open spec fn entry_read(package: LockedView, before: Progress, entry: EntryView) -> Reading {
    let path = lossy(entry.path);
    let counted = Progress { entries: before.entries + 1, ..before };
    if let Some(message) = place_fault(package, counted.entries, entry.path) {
        Reading::Refused(Trouble::Plain(message))
    } else if entry.is_dir {
        Reading::On(counted)
    } else if !entry.is_file {
        Reading::Refused(Trouble::Plain("crate 归档包含非普通文件条目："@ + path))
    } else {
        match entry.size {
            None => Reading::Refused(Trouble::Outside),
            Some(size) => {
                let at = Progress { expanded: counted.expanded + size as nat, ..counted };
                if at.expanded > MAX_ARCHIVE_EXPANDED_BYTES {
                    Reading::Refused(
                        Trouble::Plain(about("crate 归档展开大小超过上限："@, package)),
                    )
                } else if !is_audited(path) {
                    Reading::On(at)
                } else {
                    audited(package, at, entry, size)
                }
            },
        }
    }
}

/// What reading on leads to.
pub open spec fn item_read(package: LockedView, before: Progress, item: ItemView) -> Reading {
    match item {
        ItemView::Unreadable => Reading::Refused(Trouble::Caused("读取 crate 归档条目失败"@)),
        ItemView::Entry(entry) => entry_read(package, before, entry),
    }
}

/// What an archive gives: the files to look at, and the trouble at which reading ended.
pub struct ScanView {
    pub files: Seq<AuditView>,
    pub trouble: Option<Trouble>,
}

/// What reading the rest of an archive gives.
pub open spec fn scan_rest(package: LockedView, at: Progress, items: Seq<ItemView>) -> ScanView
    decreases items.len(),
{
    if items.len() == 0 {
        ScanView {
            files: at.files,
            trouble: if at.saw_manifest {
                None
            } else {
                Some(Trouble::Plain(about("crate 归档缺少 Cargo.toml："@, package)))
            },
        }
    } else {
        match item_read(package, at, items[0]) {
            Reading::Refused(trouble) => ScanView { files: at.files, trouble: Some(trouble) },
            Reading::On(next) => scan_rest(package, next, items.skip(1)),
        }
    }
}

/// The files of an archive to look at, and the fault at which reading ended, if it did not reach
/// the end. The files before a fault are there too.
#[derive(Debug)]
pub struct ArchiveScan {
    pub files: Vec<AuditFile>,
    pub fault: Option<Fault>,
}

impl ArchiveScan {
    /// Whether the scan is what an archive gives.
    pub open spec fn is_scan(&self, expected: ScanView) -> bool {
        &&& audit_views(self.files@) == expected.files
        &&& match expected.trouble {
            None => self.fault is None,
            Some(trouble) => self.fault matches Some(fault) && fits(fault@, trouble),
        }
    }
}

struct Reader {
    entries: usize,
    expanded: u64,
    saw_manifest: bool,
    files: Vec<AuditFile>,
}

impl View for Reader {
    type V = Progress;

    closed spec fn view(&self) -> Progress {
        Progress {
            entries: self.entries as nat,
            expanded: self.expanded as nat,
            saw_manifest: self.saw_manifest,
            files: audit_views(self.files@),
        }
    }
}

impl Reader {
    spec fn in_limits(&self) -> bool {
        self.entries <= MAX_ARCHIVE_ENTRIES && self.expanded <= MAX_ARCHIVE_EXPANDED_BYTES
    }

    /// Reads an entry.
    fn read(&mut self, package: &LockedCargoPackage, entry: CrateEntry<'_, '_, '_>) -> (r: Result<
        (),
        Fault,
    >)
        requires
            old(self).in_limits(),
        ensures
            match entry_read(package@, old(self)@, entry_model(entry)) {
                Reading::On(next) => r is Ok && final(self)@ == next && final(self).in_limits(),
                Reading::Refused(trouble) => r matches Err(fault) && fits(fault@, trouble)
                    && final(self)@.files == old(self)@.files,
            },
    {
        self.entries = self.entries + 1;
        if self.entries > MAX_ARCHIVE_ENTRIES {
            let count = count_text(MAX_ARCHIVE_ENTRIES);
            let start = concat3("crate 归档条目超过 ", count.as_str(), " 个：");
            return Err(Fault::new(message_about(start.as_str(), package)));
        }
        let bytes = entry_path(&entry);
        let path = lossy_text(bytes.as_slice());
        let root = concat3(package.name.as_str(), "-", package.version.as_str());
        if !is_absolute(path.as_str()) && !path_starts_in(&bytes, root.as_str()) {
            return Err(Fault::new(concat2("crate 归档根目录异常：", path.as_str())));
        }
        if let Err(fault) = validate_archive_path(path.as_str(), root.as_str()) {
            return Err(fault);
        }
        if entry_is_dir(&entry) {
            return Ok(());
        }
        if !entry_is_file(&entry) {
            return Err(Fault::new(concat2("crate 归档包含非普通文件条目：", path.as_str())));
        }
        let size: u64 = match entry_size(&entry) {
            Ok(size) => size,
            Err(cause) => {
                return Err(Fault::new(cause));
            },
        };
        self.expanded = self.expanded.saturating_add(size);
        if self.expanded > MAX_ARCHIVE_EXPANDED_BYTES {
            return Err(Fault::new(message_about("crate 归档展开大小超过上限：", package)));
        }
        let name = match file_name(path.as_str()) {
            Some(name) => name,
            None => {
                return Ok(());
            },
        };
        let is_manifest = same_text(name.as_str(), "Cargo.toml");
        if !is_manifest && !same_text(name.as_str(), "build.rs") {
            return Ok(());
        }
        self.audit(package, entry, size, path, is_manifest)
    }

    fn audit(
        &mut self,
        package: &LockedCargoPackage,
        entry: CrateEntry<'_, '_, '_>,
        size: u64,
        path: String,
        is_manifest: bool,
    ) -> (r: Result<(), Fault>)
        requires
            path@ == lossy(entry_model(entry).path),
            is_manifest == (last_name(path@) == Some("Cargo.toml"@)),
            old(self).in_limits(),
        ensures
            match audited(package@, old(self)@, entry_model(entry), size) {
                Reading::On(next) => r is Ok && final(self)@ == next && final(self).in_limits(),
                Reading::Refused(trouble) => r matches Err(fault) && fits(fault@, trouble)
                    && final(self)@.files == old(self)@.files,
            },
    {
        if size > MAX_ARCHIVE_FILE_BYTES {
            return Err(Fault::new(concat2("crate 静态审计文件超过大小上限：", path.as_str())));
        }
        let bytes = match read_entry(entry) {
            Ok(bytes) => bytes,
            Err(cause) => {
                return Err(Fault::new(cause));
            },
        };
        let content = match utf8_text(bytes.as_slice()) {
            Ok(content) => content,
            Err(cause) => {
                return Err(
                    Fault::because(
                        concat2("crate 静态审计文件不是 UTF-8：", path.as_str()),
                        cause,
                    ),
                );
            },
        };
        let mut display_path = concat5(
            "crate:",
            package.name.as_str(),
            "@",
            package.version.as_str(),
            "/",
        );
        display_path.append(path.as_str());
        let file = AuditFile { display_path, is_manifest, content };
        let ghost before = self.files@;
        self.files.push(file);
        assert(audit_views(self.files@) =~= audit_views(before).push(file@));
        if is_manifest {
            self.saw_manifest = true;
        }
        Ok(())
    }
}

/// Reads the archive of a package.
pub fn scan_crate_archive(package: &LockedCargoPackage, archive_bytes: &[u8]) -> (r: ArchiveScan)
    ensures
        r.is_scan(scan_rest(package@, at_start(), archive_items(archive_bytes@))),
{
    let mut reader = Reader {
        entries: 0,
        expanded: 0,
        saw_manifest: false,
        files: Vec::new(),
    };
    assert(audit_views(reader.files@) =~= Seq::<AuditView>::empty());
    let ghost expected = scan_rest(package@, at_start(), archive_items(archive_bytes@));
    let mut archive = open_archive(archive_bytes);
    let mut entries = match archive_entries(&mut archive) {
        Ok(entries) => entries,
        Err(cause) => {
            return ArchiveScan {
                files: reader.files,
                fault: Some(Fault::because("读取 crate 归档目录失败".to_owned(), cause)),
            };
        },
    };
    loop
        invariant
            reader.in_limits(),
            expected == scan_rest(package@, at_start(), archive_items(archive_bytes@)),
            expected == scan_rest(package@, reader@, left_items(entries)),
        decreases left_items(entries).len(),
    {
        match next_entry(&mut entries) {
            None => {
                if reader.saw_manifest {
                    return ArchiveScan { files: reader.files, fault: None };
                }
                let fault = Fault::new(message_about("crate 归档缺少 Cargo.toml：", package));
                return ArchiveScan { files: reader.files, fault: Some(fault) };
            },
            Some(Err(cause)) => {
                let fault = Fault::because("读取 crate 归档条目失败".to_owned(), cause);
                return ArchiveScan { files: reader.files, fault: Some(fault) };
            },
            Some(Ok(entry)) => {
                if let Err(fault) = reader.read(package, entry) {
                    return ArchiveScan { files: reader.files, fault: Some(fault) };
                }
            },
        }
    }
}

/// Whether an item of an archive is harmless as far as it can be without looking into it: it is a
/// directory or a regular file, and its path only leads down from the package's own directory.
pub open spec fn stays_inside(package: LockedView, item: ItemView) -> bool {
    item matches ItemView::Entry(entry) && archive_path_fault(
        lossy(entry.path),
        package_root(package),
    ) is None && starts_in(entry.path, encode_utf8(package_root(package))) && (entry.is_dir
        || entry.is_file)
}

/// The total of the sizes of the regular files in an archive.
pub open spec fn total_size(items: Seq<ItemView>) -> nat
    decreases items.len(),
{
    if items.len() == 0 {
        0
    } else {
        let rest = total_size(items.skip(1));
        match items[0] {
            ItemView::Entry(entry) => if entry.is_dir {
                rest
            } else {
                rest + entry.size.unwrap_or(0) as nat
            },
            ItemView::Unreadable => rest,
        }
    }
}

/// Whether a manifest is among files.
pub open spec fn has_manifest(files: Seq<AuditView>) -> bool {
    exists|i: int| 0 <= i < files.len() && (#[trigger] files[i]).is_manifest
}

proof fn lemma_accepted_rest(package: LockedView, at: Progress, items: Seq<ItemView>)
    requires
        scan_rest(package, at, items).trouble is None,
        at.entries <= MAX_ARCHIVE_ENTRIES,
        at.expanded <= MAX_ARCHIVE_EXPANDED_BYTES,
        at.saw_manifest ==> has_manifest(at.files),
    ensures
        forall|i: int| 0 <= i < items.len() ==> stays_inside(package, #[trigger] items[i]),
        at.entries + items.len() <= MAX_ARCHIVE_ENTRIES,
        at.expanded + total_size(items) <= MAX_ARCHIVE_EXPANDED_BYTES,
        has_manifest(scan_rest(package, at, items).files),
    decreases items.len(),
{
    if items.len() > 0 {
        let next = item_read(package, at, items[0])->On_0;
        if at.saw_manifest {
            let i = choose|i: int| 0 <= i < at.files.len() && (#[trigger] at.files[i]).is_manifest;
            assert(next.files[i] == at.files[i]);
        } else if next.saw_manifest {
            assert(next.files[at.files.len() as int].is_manifest);
        }
        lemma_accepted_rest(package, next, items.skip(1));
        assert forall|i: int| 0 <= i < items.len() implies stays_inside(
            package,
            #[trigger] items[i],
        ) by {
            if i > 0 {
                assert(items[i] == items.skip(1)[i - 1]);
            }
        }
    }
}

/// Of an archive that is accepted, every entry was read and stays inside the package's directory,
/// the entries are not too many, their sizes are not too large, and a manifest is among the files
/// to look at.
pub proof fn lemma_accepted_archive_stays_inside(package: LockedView, items: Seq<ItemView>)
    requires
        scan_rest(package, at_start(), items).trouble is None,
    ensures
        forall|i: int| 0 <= i < items.len() ==> stays_inside(package, #[trigger] items[i]),
        items.len() <= MAX_ARCHIVE_ENTRIES,
        total_size(items) <= MAX_ARCHIVE_EXPANDED_BYTES,
        has_manifest(scan_rest(package, at_start(), items).files),
{
    lemma_accepted_rest(package, at_start(), items);
}

/// Something that a static scan points out.
#[derive(Debug)]
pub struct StaticIndicator {
    pub rule_id: String,
    pub severity: String,
    pub path: String,
    pub summary: String,
    pub evidence: String,
}

/// The model of an indicator.
pub struct IndicatorView {
    pub rule_id: Seq<char>,
    pub severity: Seq<char>,
    pub path: Seq<char>,
    pub summary: Seq<char>,
    pub evidence: Seq<char>,
}

impl View for StaticIndicator {
    type V = IndicatorView;

    open spec fn view(&self) -> IndicatorView {
        IndicatorView {
            rule_id: self.rule_id@,
            severity: self.severity@,
            path: self.path@,
            summary: self.summary@,
            evidence: self.evidence@,
        }
    }
}

/// The models of a list of indicators.
pub open spec fn indicator_views(list: Seq<StaticIndicator>) -> Seq<IndicatorView> {
    list.map_values(|i: StaticIndicator| i@)
}

/// The indicator for a package that cannot be looked at.
pub open spec fn unscanned(package: LockedView) -> IndicatorView {
    IndicatorView {
        rule_id: "SC-CARGO-UNSCANNED-SOURCE"@,
        severity: "blocker"@,
        path: "Cargo.lock"@,
        summary: "外部依赖来源尚不能无执行取证，已拒绝继续构建"@,
        evidence: package.name + " "@ + package.version + " source="@ + package.source,
    }
}

/// The indicators for the packages that cannot be looked at, in order.
pub open spec fn unscanned_among(packages: Seq<LockedView>) -> Seq<IndicatorView>
    decreases packages.len(),
{
    if packages.len() == 0 {
        Seq::empty()
    } else {
        let before = unscanned_among(packages.drop_last());
        if from_registry(packages.last().source) {
            before
        } else {
            before.push(unscanned(packages.last()))
        }
    }
}

fn unscanned_source(package: &LockedCargoPackage) -> (r: StaticIndicator)
    ensures
        r@ == unscanned(package@),
{
    let evidence = concat5(
        package.name.as_str(),
        " ",
        package.version.as_str(),
        " source=",
        package.source.as_str(),
    );
    StaticIndicator {
        rule_id: "SC-CARGO-UNSCANNED-SOURCE".to_owned(),
        severity: "blocker".to_owned(),
        path: "Cargo.lock".to_owned(),
        summary: "外部依赖来源尚不能无执行取证，已拒绝继续构建".to_owned(),
        evidence,
    }
}

/// What is wrong with a package of the registry before its archive is fetched.
pub open spec fn package_fault(package: LockedView) -> Option<Seq<char>> {
    if package.checksum.len() == 0 {
        Some(about("crates.io 依赖缺少校验和："@, package))
    } else {
        coordinate_fault(package)
    }
}

/// Whether an archive is one that a package came through with: it has the locked checksum, and it
/// was read to its end without a fault.
pub open spec fn is_accepted(package: LockedView, bytes: Seq<u8>) -> bool {
    &&& package_fault(package) is None
    &&& checksum_fault(package, bytes) is None
    &&& scan_rest(package, at_start(), archive_items(bytes)).trouble is None
}

/// Whether archives are those that the packages of the registry came through with, one for each, in
/// order.
pub open spec fn accounts_for(packages: Seq<LockedView>, archives: Seq<Seq<u8>>) -> bool
    decreases packages.len(),
{
    if packages.len() == 0 {
        archives.len() == 0
    } else if from_registry(packages.last().source) {
        &&& archives.len() > 0
        &&& is_accepted(packages.last(), archives.last())
        &&& accounts_for(packages.drop_last(), archives.drop_last())
    } else {
        accounts_for(packages.drop_last(), archives)
    }
}

/// Reads the archive of a package, provided that it has the locked checksum.
pub fn audit_archive(package: &LockedCargoPackage, bytes: &Vec<u8>) -> (r: Result<
    ArchiveScan,
    Fault,
>)
    requires
        digestible(bytes@.len()),
    ensures
        match checksum_fault(package@, bytes@) {
            Some(message) => r matches Err(fault) && fault@ == seq![message],
            None => r matches Ok(scan) && scan.is_scan(
                scan_rest(package@, at_start(), archive_items(bytes@)),
            ),
        },
{
    match verify_archive_checksum(package, bytes.as_slice()) {
        Err(fault) => Err(fault),
        Ok(()) => Ok(scan_crate_archive(package, bytes.as_slice())),
    }
}

/// That one scan downloads too much.
pub open spec fn too_much() -> Seq<char> {
    "单次依赖取证下载超过 "@ + decimal(MAX_SCAN_DOWNLOAD_BYTES as nat) + " 字节，已停止"@
}

/// The sum of two numbers of bytes; at the largest number it stays.
pub open spec fn added(total: u64, more: u64) -> u64 {
    if total + more > u64::MAX {
        u64::MAX
    } else {
        (total + more) as u64
    }
}

/// A walk through the locked packages: which comes next, how much was downloaded, and what blocks
/// the build. A package of the registry is passed only with an archive that came through.
pub struct DependencyScan {
    packages: Vec<LockedCargoPackage>,
    next: usize,
    downloaded: u64,
    blockers: Vec<StaticIndicator>,
    archives: Ghost<Seq<Seq<u8>>>,
}

impl DependencyScan {
    /// All locked packages.
    pub closed spec fn all(&self) -> Seq<LockedView> {
        locked_views(self.packages@)
    }

    /// How many packages have been passed.
    pub closed spec fn passed(&self) -> nat {
        self.next as nat
    }

    /// How many bytes were downloaded; at the largest number it stays.
    pub closed spec fn total(&self) -> u64 {
        self.downloaded
    }

    /// What blocks the build so far.
    pub closed spec fn blocked(&self) -> Seq<IndicatorView> {
        indicator_views(self.blockers@)
    }

    /// The archives of the packages of the registry that were passed.
    pub closed spec fn taken(&self) -> Seq<Seq<u8>> {
        self.archives@
    }

    /// Whether what blocks the build is one indicator for each package passed that cannot be
    /// looked at, and there is one archive that came through for each other package passed.
    pub open spec fn valid(&self) -> bool {
        &&& self.passed() <= self.all().len()
        &&& self.blocked() == unscanned_among(self.all().take(self.passed() as int))
        &&& accounts_for(self.all().take(self.passed() as int), self.taken())
    }

    /// The first package of the registry that has not been passed, or the number of packages.
    pub open spec fn upcoming(&self, at: int) -> bool {
        &&& self.passed() <= at <= self.all().len()
        &&& forall|i: int|
            self.passed() <= i < at ==> !from_registry((#[trigger] self.all()[i]).source)
        &&& at < self.all().len() ==> from_registry(self.all()[at].source)
    }

    /// Whether the next package is one whose archive is to be taken.
    pub open spec fn is_pending(&self) -> bool {
        &&& self.passed() < self.all().len()
        &&& from_registry(self.all()[self.passed() as int].source)
        &&& package_fault(self.all()[self.passed() as int]) is None
    }

    /// The next package whose archive is to be looked at; it stays the next one until its archive
    /// was taken. Those before it that cannot be looked at are noted as blocking the build.
    pub fn next_package(&mut self) -> (r: Result<Option<&LockedCargoPackage>, Fault>)
        requires
            old(self).valid(),
        ensures
            final(self).valid(),
            final(self).all() == old(self).all(),
            final(self).total() == old(self).total(),
            final(self).taken() == old(self).taken(),
            old(self).upcoming(final(self).passed() as int),
            if final(self).passed() == old(self).all().len() {
                r matches Ok(found) && found is None
            } else {
                match package_fault(old(self).all()[final(self).passed() as int]) {
                    Some(message) => r matches Err(fault) && fault@ == seq![message],
                    None => r matches Ok(found) && found matches Some(package) && package@
                        == old(self).all()[final(self).passed() as int] && final(self).is_pending(),
                }
            },
    {
        let ghost start = *self;
        while self.next < self.packages.len() && !is_crates_io_source(
            self.packages[self.next].source.as_str(),
        )
            invariant
                self.valid(),
                start.valid(),
                self.packages == start.packages,
                self.downloaded == start.downloaded,
                self.archives == start.archives,
                start.next <= self.next <= self.packages@.len(),
                forall|i: int|
                    start.next <= i < self.next ==> !from_registry(
                        (#[trigger] start.all()[i]).source,
                    ),
                start == *old(self),
            decreases self.packages@.len() - self.next,
        {
            let at: usize = self.next;
            let ghost before = *self;
            assert(self.all()[at as int] == self.packages@[at as int]@);
            assert(self.all().take(at + 1).drop_last() =~= self.all().take(at as int));
            self.next = self.next + 1;
            let indicator = unscanned_source(&self.packages[at]);
            self.blockers.push(indicator);
            assert(self.blocked() =~= before.blocked().push(indicator@));
        }
        if self.next == self.packages.len() {
            return Ok(None);
        }
        let package = &self.packages[self.next];
        assert(self.all()[self.next as int] == package@);
        if package.checksum.as_str().is_empty() {
            return Err(Fault::new(message_about("crates.io 依赖缺少校验和：", package)));
        }
        match validate_package_coordinate(package) {
            Ok(()) => Ok(Some(package)),
            Err(fault) => Err(fault),
        }
    }

    /// Takes the archive of the next package, with the number of bytes that were downloaded for it.
    /// An archive without the locked checksum is not counted; one that is too much to download is
    /// counted, and nothing is handed out of it. The package is passed only if its archive is read
    /// without a fault.
    pub fn take_archive(&mut self, bytes: &Vec<u8>, downloaded: u64) -> (r: Result<
        ArchiveScan,
        Fault,
    >)
        requires
            old(self).valid(),
            old(self).is_pending(),
            digestible(bytes@.len()),
        ensures
            final(self).valid(),
            final(self).all() == old(self).all(),
            final(self).blocked() == old(self).blocked(),
            ({
                let package = old(self).all()[old(self).passed() as int];
                let expected = scan_rest(package, at_start(), archive_items(bytes@));
                let stays = final(self).passed() == old(self).passed() && final(self).taken()
                    == old(self).taken();
                if let Some(message) = checksum_fault(package, bytes@) {
                    &&& r matches Err(fault) && fault@ == seq![message]
                    &&& final(self).total() == old(self).total()
                    &&& stays
                } else {
                    &&& final(self).total() == added(old(self).total(), downloaded)
                    &&& if final(self).total() > MAX_SCAN_DOWNLOAD_BYTES {
                        r matches Err(fault) && fault@ == seq![too_much()] && stays
                    } else {
                        &&& r matches Ok(scan) && scan.is_scan(expected)
                        &&& if expected.trouble is None {
                            final(self).passed() == old(self).passed() + 1 && final(self).taken()
                                == old(self).taken().push(bytes@)
                        } else {
                            stays
                        }
                    }
                }
            }),
    {
        let ghost before = *self;
        let at: usize = self.next;
        assert(self.all()[at as int] == self.packages@[at as int]@);
        let scan = match audit_archive(&self.packages[at], bytes) {
            Ok(scan) => scan,
            Err(fault) => {
                return Err(fault);
            },
        };
        self.downloaded = self.downloaded.saturating_add(downloaded);
        if self.downloaded > MAX_SCAN_DOWNLOAD_BYTES {
            let limit = decimal_text(MAX_SCAN_DOWNLOAD_BYTES);
            return Err(
                Fault::new(
                    concat3("单次依赖取证下载超过 ", limit.as_str(), " 字节，已停止"),
                ),
            );
        }
        if scan.fault.is_none() {
            assert(at < self.packages.len());
            self.next = self.next + 1;
            self.archives = Ghost(self.archives@.push(bytes@));
            proof {
                let passed = self.all().take(at + 1);
                assert(passed.drop_last() =~= before.all().take(at as int));
                assert(passed.last() == before.all()[at as int]);
                assert(self.archives@.drop_last() =~= before.archives@);
            }
        }
        Ok(scan)
    }

    /// What blocks the build, once every package was passed.
    pub fn source_blockers(self) -> (r: Vec<StaticIndicator>)
        requires
            self.valid(),
            self.passed() == self.all().len(),
        ensures
            indicator_views(r@) == unscanned_among(self.all()),
    {
        assert(self.all().take(self.passed() as int) =~= self.all());
        self.blockers
    }
}

/// What is wrong with the packages of a lock file as a whole.
pub open spec fn packages_fault(packages: Seq<LockedView>) -> Option<Seq<char>> {
    if packages.len() > MAX_LOCKED_PACKAGES {
        Some(
            "Cargo.lock 包含超过 "@ + decimal(MAX_LOCKED_PACKAGES as nat)
                + " 个外部包，已拒绝自动取证"@,
        )
    } else {
        None
    }
}

/// Starts the walk through the packages of the lock file at `lock_path`. Without a lock file there
/// is nothing to walk through.
pub fn scan_locked_cargo_dependencies(lock_path: &str, content: Option<&str>) -> (r: Result<
    Option<DependencyScan>,
    Fault,
>)
    ensures
        match content {
            None => r matches Ok(scan) && scan is None,
            Some(text) => match toml_reading(text@) {
                Err(cause) => r matches Err(fault) && fault@
                    == seq!["解析 Cargo.lock 失败："@ + lock_path@, cause],
                Ok(document) => match packages_fault(locked_in(document)) {
                    Some(message) => r matches Err(fault) && fault@ == seq![message],
                    None => r matches Ok(found) && found matches Some(scan) && scan.valid()
                        && scan.all() == locked_in(document) && scan.passed() == 0 && scan.total()
                        == 0 && scan.taken().len() == 0,
                },
            },
        },
{
    let text = match content {
        Some(text) => text,
        None => {
            return Ok(None);
        },
    };
    let packages = match locked_packages(lock_path, text) {
        Ok(packages) => packages,
        Err(fault) => {
            return Err(fault);
        },
    };
    if packages.len() > MAX_LOCKED_PACKAGES {
        let limit = count_text(MAX_LOCKED_PACKAGES);
        return Err(
            Fault::new(
                concat3("Cargo.lock 包含超过 ", limit.as_str(), " 个外部包，已拒绝自动取证"),
            ),
        );
    }
    let scan = DependencyScan { packages, next: 0, downloaded: 0, blockers: Vec::new(), archives: Ghost(Seq::empty()) };
    assert(scan.blocked() =~= unscanned_among(scan.all().take(0)));
    Ok(Some(scan))
}

/// Checks that the directory in which archives are kept is a directory itself.
pub fn check_cache_root(path: &str, is_dir: bool, is_symlink: bool) -> (r: Result<(), Fault>)
    ensures
        checked(r) == alone(
            if is_dir && !is_symlink {
                None
            } else {
                Some("依赖证据缓存目录不能是符号链接："@ + path@)
            },
        ),
{
    if is_dir && !is_symlink {
        Ok(())
    } else {
        Err(Fault::new(concat2("依赖证据缓存目录不能是符号链接：", path)))
    }
}

/// At the end of a walk every package of the registry has come through with an archive that has the
/// locked checksum and was read to its end.
pub proof fn lemma_walk_passes_through_archives(
    packages: Seq<LockedView>,
    archives: Seq<Seq<u8>>,
    at: int,
)
    requires
        accounts_for(packages, archives),
        0 <= at < packages.len(),
        from_registry(packages[at].source),
    ensures
        exists|k: int|
            0 <= k < archives.len() && is_accepted(packages[at], #[trigger] archives[k]),
    decreases packages.len(),
{
    let registry = from_registry(packages.last().source);
    if at == packages.len() - 1 {
        assert(is_accepted(packages[at], archives[archives.len() - 1]));
    } else {
        assert(packages.drop_last()[at] == packages[at]);
        let before = if registry {
            archives.drop_last()
        } else {
            archives
        };
        lemma_walk_passes_through_archives(packages.drop_last(), before, at);
        let k = choose|k: int|
            0 <= k < before.len() && is_accepted(packages[at], #[trigger] before[k]);
        assert(archives[k] == before[k]);
    }
}

/// At the end of a walk every package that does not come from the registry blocks the build: the
/// build is free of such blockers only if all packages come from the registry.
pub proof fn lemma_unscanned_source_blocks(packages: Seq<LockedView>, at: int)
    requires
        0 <= at < packages.len(),
        !from_registry(packages[at].source),
    ensures
        unscanned_among(packages).contains(unscanned(packages[at])),
    decreases packages.len(),
{
    let before = unscanned_among(packages.drop_last());
    if at == packages.len() - 1 {
        assert(unscanned_among(packages)[before.len() as int] == unscanned(packages[at]));
    } else {
        assert(packages.drop_last()[at] == packages[at]);
        lemma_unscanned_source_blocks(packages.drop_last(), at);
        let i = choose|i: int| 0 <= i < before.len() && before[i] == unscanned(packages[at]);
        assert(unscanned_among(packages)[i] == before[i]);
    }
}

} // verus!
