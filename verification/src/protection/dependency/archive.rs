//! Locked packages and what their archives hold.
//!
//! Archives come from one fixed address and are held against the checksum in the lock file. They
//! are read in memory; nothing in them is executed.

use vstd::prelude::*;

use crate::data::{
    lemma_list_view, list_view, parse_toml, text_field, toml_reading, Data, DataView,
};
use crate::digest::{digestible, hex_digest, sha256};
use crate::fault::{alone, checked, Fault};
use crate::path::{absolute, is_absolute, is_entry_name, names_entry, parts, path_parts};
use crate::protection::dependency::graph::{or_empty, package_entries, text_or_empty};
use crate::protection::dependency::order::{
    lemma_sorted_commutes, sort, sorted, HasKey, Keyed, PackageKey,
};
use crate::text::number::{hex_text, is_digit};
use crate::text::{
    ascii_lower, chars_of, concat2, concat3, concat4, concat5, same_text, texts, to_ascii_lower,
};

verus! {

/// The largest archive, in bytes.
pub const MAX_ARCHIVE_BYTES: u64 = 67108864;

/// A package that the lock file takes from outside the project.
#[derive(Debug)]
pub struct LockedCargoPackage {
    pub name: String,
    pub version: String,
    pub source: String,
    pub checksum: String,
}

/// The model of a locked package.
pub struct LockedView {
    pub name: Seq<char>,
    pub version: Seq<char>,
    pub source: Seq<char>,
    pub checksum: Seq<char>,
}

impl View for LockedCargoPackage {
    type V = LockedView;

    open spec fn view(&self) -> LockedView {
        LockedView {
            name: self.name@,
            version: self.version@,
            source: self.source@,
            checksum: self.checksum@,
        }
    }
}

impl HasKey for LockedView {
    open spec fn key(self) -> PackageKey {
        PackageKey { name: self.name, version: self.version, source: self.source }
    }
}

impl HasKey for LockedCargoPackage {
    open spec fn key(self) -> PackageKey {
        self@.key()
    }
}

impl Keyed for LockedCargoPackage {
    fn key_texts(&self) -> (r: (&str, &str, &str)) {
        (self.name.as_str(), self.version.as_str(), self.source.as_str())
    }
}

/// The models of a list of locked packages.
pub open spec fn locked_views(list: Seq<LockedCargoPackage>) -> Seq<LockedView> {
    list.map_values(|p: LockedCargoPackage| p@)
}

/// The locked package of a lock file entry; what is missing is empty.
pub open spec fn locked_of(package: DataView) -> LockedView {
    LockedView {
        name: or_empty(text_field(package, "name"@)),
        version: or_empty(text_field(package, "version"@)),
        source: or_empty(text_field(package, "source"@)),
        checksum: ascii_lower(or_empty(text_field(package, "checksum"@))),
    }
}

/// The packages among lock file entries that have a source.
pub open spec fn outside_packages(entries: Seq<DataView>) -> Seq<LockedView>
    decreases entries.len(),
{
    if entries.len() == 0 {
        Seq::empty()
    } else {
        let before = outside_packages(entries.drop_last());
        if locked_of(entries.last()).source.len() > 0 {
            before.push(locked_of(entries.last()))
        } else {
            before
        }
    }
}

/// The list with one of each run of equal packages.
pub open spec fn without_repeats(list: Seq<LockedView>) -> Seq<LockedView>
    decreases list.len(),
{
    if list.len() <= 1 {
        list
    } else {
        let before = without_repeats(list.drop_last());
        if list.last() == list[list.len() - 2] {
            before
        } else {
            before.push(list.last())
        }
    }
}

/// The packages of a lock document that have a source, sorted, one of each run of equal ones.
pub open spec fn locked_in(document: DataView) -> Seq<LockedView> {
    without_repeats(sorted(outside_packages(package_entries(document))))
}

fn same_package(left: &LockedCargoPackage, right: &LockedCargoPackage) -> (r: bool)
    ensures
        r == (left@ == right@),
{
    left.name == right.name && left.version == right.version && left.source == right.source
        && left.checksum == right.checksum
}

fn remove_repeats(list: Vec<LockedCargoPackage>) -> (r: Vec<LockedCargoPackage>)
    ensures
        locked_views(r@) == without_repeats(locked_views(list@)),
{
    let ghost all = list@;
    let ghost views = locked_views(all);
    let mut rest = list;
    let mut out: Vec<LockedCargoPackage> = Vec::new();
    let ghost mut done: int = 0;
    assert(locked_views(out@) =~= without_repeats(views.take(0)));
    while rest.len() > 0
        invariant
            views == locked_views(all),
            0 <= done <= all.len(),
            rest@ == all.skip(done),
            locked_views(out@) == without_repeats(views.take(done)),
            done > 0 ==> out@.len() > 0 && out@.last()@ == views[done - 1],
            done == 0 ==> out@.len() == 0,
        decreases rest@.len(),
    {
        let item = rest.remove(0);
        assert(item == all[done]);
        assert(views[done] == item@);
        assert(rest@ =~= all.skip(done + 1));
        let ghost next = views.take(done + 1);
        assert(next.drop_last() =~= views.take(done));
        let ghost before = out@;
        if out.len() > 0 && same_package(&out[out.len() - 1], &item) {
        } else {
            out.push(item);
            assert(locked_views(out@) =~= locked_views(before).push(item@));
        }
        proof {
            if done > 0 {
                assert(next[next.len() - 2] == views[done - 1]);
            } else {
                assert(locked_views(out@) =~= next);
            }
            done = done + 1;
        }
    }
    assert(views.take(done) =~= views);
    out
}

/// Reads the locked packages from the content of the lock file at `path`.
pub fn locked_packages(path: &str, content: &str) -> (r: Result<Vec<LockedCargoPackage>, Fault>)
    ensures
        match toml_reading(content@) {
            Err(cause) => r matches Err(e) && e@ == seq!["解析 Cargo.lock 失败："@ + path@, cause],
            Ok(document) => r matches Ok(list) && locked_views(list@) == locked_in(document),
        },
{
    let document = match parse_toml(content) {
        Ok(document) => document,
        Err(cause) => {
            return Err(Fault::because(concat2("解析 Cargo.lock 失败：", path), cause));
        },
    };
    let listed = read_outside_packages(&document);
    proof {
        lemma_sorted_commutes(listed@, |p: LockedCargoPackage| p@);
    }
    Ok(remove_repeats(sort(listed)))
}

fn read_outside_packages(document: &Data) -> (r: Vec<LockedCargoPackage>)
    ensures
        locked_views(r@) == outside_packages(package_entries(document@)),
{
    let mut out: Vec<LockedCargoPackage> = Vec::new();
    assert(locked_views(out@) =~= Seq::<LockedView>::empty());
    if let Some(list) = document.field("package") {
        if let Some(items) = list.items() {
            let ghost views = list_view(items@);
            proof {
                lemma_list_view(items@);
            }
            let mut i: usize = 0;
            assert(views.take(0) =~= Seq::<DataView>::empty());
            while i < items.len()
                invariant
                    i <= items@.len(),
                    views.len() == items@.len(),
                    forall|j: int| 0 <= j < items@.len() ==> #[trigger] views[j] == items@[j]@,
                    locked_views(out@) == outside_packages(views.take(i as int)),
                decreases items@.len() - i,
            {
                let package = &items[i];
                assert(views[i as int] == items@[i as int]@);
                assert(views.take(i + 1).drop_last() =~= views.take(i as int));
                let source = text_or_empty(package, "source");
                let ghost before = out@;
                if !source.as_str().is_empty() {
                    let checksum = text_or_empty(package, "checksum");
                    let item = LockedCargoPackage {
                        name: text_or_empty(package, "name"),
                        version: text_or_empty(package, "version"),
                        source,
                        checksum: to_ascii_lower(checksum.as_str()),
                    };
                    assert(item@ == locked_of(views[i as int]));
                    out.push(item);
                    assert(locked_views(out@) =~= locked_views(before).push(item@));
                }
                i = i + 1;
            }
            assert(views.take(i as int) =~= views);
        }
    }
    out
}

/// Whether a source is the public registry.
pub open spec fn from_registry(source: Seq<char>) -> bool {
    ||| source == "registry+https://github.com/rust-lang/crates.io-index"@
    ||| source == "sparse+https://index.crates.io/"@
}

/// Whether a source is the public registry.
pub fn is_crates_io_source(source: &str) -> (r: bool)
    ensures
        r == from_registry(source@),
{
    same_text(source, "registry+https://github.com/rust-lang/crates.io-index") || same_text(
        source,
        "sparse+https://index.crates.io/",
    )
}

/// Whether a character is an ASCII letter or digit.
pub open spec fn is_alphanumeric(c: char) -> bool {
    is_digit(c) || 'a' <= c <= 'z' || 'A' <= c <= 'Z'
}

/// Whether a character is a hexadecimal digit.
pub open spec fn is_hex(c: char) -> bool {
    is_digit(c) || 'a' <= c <= 'f' || 'A' <= c <= 'F'
}

/// Whether a text can be the name of a crate.
pub open spec fn valid_name(name: Seq<char>) -> bool {
    &&& name.len() > 0
    &&& forall|i: int|
        0 <= i < name.len() ==> is_alphanumeric(#[trigger] name[i]) || name[i] == '-' || name[i]
            == '_'
}

/// Whether a text can be the version of a crate.
pub open spec fn valid_version(version: Seq<char>) -> bool {
    &&& version.len() > 0
    &&& forall|i: int|
        0 <= i < version.len() ==> is_alphanumeric(#[trigger] version[i]) || version[i] == '.'
            || version[i] == '+' || version[i] == '-'
}

/// Whether a text can be the checksum of a crate.
pub open spec fn valid_checksum(checksum: Seq<char>) -> bool {
    &&& checksum.len() == 64
    &&& forall|i: int| 0 <= i < checksum.len() ==> is_hex(#[trigger] checksum[i])
}

/// What is wrong with the name, version or checksum of a package.
pub open spec fn coordinate_fault(package: LockedView) -> Option<Seq<char>> {
    if !valid_name(package.name) {
        Some("非法 crate 名称："@ + package.name)
    } else if !valid_version(package.version) {
        Some("非法 crate 版本："@ + package.version)
    } else if !valid_checksum(package.checksum) {
        Some("非法 crate 校验和："@ + package.name)
    } else {
        None
    }
}

fn char_is_alphanumeric(c: char) -> (r: bool)
    ensures
        r == is_alphanumeric(c),
{
    ('0' <= c && c <= '9') || ('a' <= c && c <= 'z') || ('A' <= c && c <= 'Z')
}

fn name_is_valid(name: &str) -> (r: bool)
    ensures
        r == valid_name(name@),
{
    let chars = chars_of(name);
    let mut i: usize = 0;
    while i < chars.len()
        invariant
            chars@ == name@,
            i <= chars@.len(),
            forall|j: int|
                0 <= j < i ==> is_alphanumeric(#[trigger] name@[j]) || name@[j] == '-' || name@[j]
                    == '_',
        decreases chars@.len() - i,
    {
        let c = chars[i];
        assert(c == name@[i as int]);
        if !(char_is_alphanumeric(c) || c == '-' || c == '_') {
            return false;
        }
        i = i + 1;
    }
    chars.len() > 0
}

fn version_is_valid(version: &str) -> (r: bool)
    ensures
        r == valid_version(version@),
{
    let chars = chars_of(version);
    let mut i: usize = 0;
    while i < chars.len()
        invariant
            chars@ == version@,
            i <= chars@.len(),
            forall|j: int|
                0 <= j < i ==> is_alphanumeric(#[trigger] version@[j]) || version@[j] == '.'
                    || version@[j] == '+' || version@[j] == '-',
        decreases chars@.len() - i,
    {
        let c = chars[i];
        assert(c == version@[i as int]);
        if !(char_is_alphanumeric(c) || c == '.' || c == '+' || c == '-') {
            return false;
        }
        i = i + 1;
    }
    chars.len() > 0
}

fn checksum_is_valid(checksum: &str) -> (r: bool)
    ensures
        r == valid_checksum(checksum@),
{
    let chars = chars_of(checksum);
    let mut i: usize = 0;
    while i < chars.len()
        invariant
            chars@ == checksum@,
            i <= chars@.len(),
            forall|j: int| 0 <= j < i ==> is_hex(#[trigger] checksum@[j]),
        decreases chars@.len() - i,
    {
        let c = chars[i];
        assert(c == checksum@[i as int]);
        if !(('0' <= c && c <= '9') || ('a' <= c && c <= 'f') || ('A' <= c && c <= 'F')) {
            return false;
        }
        i = i + 1;
    }
    chars.len() == 64
}

/// Checks name, version and checksum of a package.
pub fn validate_package_coordinate(package: &LockedCargoPackage) -> (r: Result<(), Fault>)
    ensures
        checked(r) == alone(coordinate_fault(package@)),
{
    if !name_is_valid(package.name.as_str()) {
        return Err(Fault::new(concat2("非法 crate 名称：", package.name.as_str())));
    }
    if !version_is_valid(package.version.as_str()) {
        return Err(Fault::new(concat2("非法 crate 版本：", package.version.as_str())));
    }
    if !checksum_is_valid(package.checksum.as_str()) {
        return Err(Fault::new(concat2("非法 crate 校验和：", package.name.as_str())));
    }
    Ok(())
}

/// A message on a package.
pub open spec fn about(message: Seq<char>, package: LockedView) -> Seq<char> {
    message + package.name + " "@ + package.version
}

pub(crate) fn message_about(message: &str, package: &LockedCargoPackage) -> (r: String)
    ensures
        r@ == about(message@, package@),
{
    concat4(message, package.name.as_str(), " ", package.version.as_str())
}

/// What is wrong with an archive: it is not the one with the locked checksum.
pub open spec fn checksum_fault(package: LockedView, bytes: Seq<u8>) -> Option<Seq<char>> {
    if hex_text(sha256(bytes)) == package.checksum {
        None
    } else {
        Some(about("crate 归档校验和不匹配："@, package))
    }
}

/// Holds the bytes of an archive against the locked checksum.
pub fn verify_archive_checksum(package: &LockedCargoPackage, bytes: &[u8]) -> (r: Result<(), Fault>)
    requires
        digestible(bytes@.len()),
    ensures
        checked(r) == alone(checksum_fault(package@, bytes@)),
{
    let actual = hex_digest(bytes);
    if actual == package.checksum {
        Ok(())
    } else {
        Err(Fault::new(message_about("crate 归档校验和不匹配：", package)))
    }
}

/// The name under which an archive is kept.
pub fn cache_file_name(package: &LockedCargoPackage) -> (r: String)
    ensures
        r@ == package@.checksum + ".crate"@,
{
    concat2(package.checksum.as_str(), ".crate")
}

/// The address from which an archive is fetched.
pub open spec fn archive_address(package: LockedView) -> Seq<char> {
    "https://static.crates.io/crates/"@ + package.name + "/"@ + package.name + "-"@
        + package.version + ".crate"@
}

/// The address from which an archive is fetched.
pub fn archive_url(package: &LockedCargoPackage) -> (r: String)
    ensures
        r@ == archive_address(package@),
{
    let mut url = concat5(
        "https://static.crates.io/crates/",
        package.name.as_str(),
        "/",
        package.name.as_str(),
        "-",
    );
    url.append(package.version.as_str());
    url.append(".crate");
    url
}

/// Where archives come from.
pub open spec fn endpoint() -> Seq<char> {
    "https://static.crates.io/crates/"@
}

/// Whether a character of an address only names something: it opens no directory, query, fragment,
/// user, port or escape.
pub open spec fn is_plain(c: char) -> bool {
    is_alphanumeric(c) || c == '-' || c == '_' || c == '.' || c == '+'
}

/// An archive of a package with a valid name and version is only ever fetched from the one fixed
/// endpoint: its address is the endpoint, and behind it one directory and one file with plain names.
pub proof fn lemma_archives_come_from_the_endpoint(package: LockedView)
    requires
        coordinate_fault(package) is None,
    ensures
        archive_address(package).take(endpoint().len() as int) == endpoint(),
        ({
            let rest = archive_address(package).skip(endpoint().len() as int);
            &&& package.name.len() < rest.len()
            &&& rest[package.name.len() as int] == '/'
            &&& forall|i: int|
                0 <= i < rest.len() && i != package.name.len() ==> is_plain(#[trigger] rest[i])
        }),
{
    reveal_strlit("https://static.crates.io/crates/");
    reveal_strlit("/");
    reveal_strlit("-");
    reveal_strlit(".crate");
    let name = package.name;
    let version = package.version;
    let address = archive_address(package);
    let at = endpoint().len() as int;
    assert(address.take(at) =~= endpoint());
    let rest = name + "/"@ + name + "-"@ + version + ".crate"@;
    assert(address.skip(at) =~= rest);
    assert forall|i: int| 0 <= i < rest.len() && i != name.len() implies is_plain(
        #[trigger] rest[i],
    ) by {
        if i < name.len() {
            assert(rest[i] == name[i]);
        } else if i < 2 * name.len() + 1 {
            assert(rest[i] == name[i - name.len() - 1]);
        } else if i == 2 * name.len() + 1 {
            assert(rest[i] == '-');
        } else if i < 2 * name.len() + 2 + version.len() {
            assert(rest[i] == version[i - 2 * name.len() - 2]);
        } else {
            assert(rest[i] == ".crate"@[i - 2 * name.len() - 2 - version.len()]);
        }
    }
}

/// What is wrong with a kept archive: it is no regular file.
pub open spec fn cached_fault(path: Seq<char>, is_file: bool, is_symlink: bool) -> Option<
    Seq<char>,
> {
    if is_file && !is_symlink {
        None
    } else {
        Some("依赖证据缓存不是普通文件："@ + path)
    }
}

/// Checks that a kept archive is a regular file.
pub fn check_cached_file(path: &str, is_file: bool, is_symlink: bool) -> (r: Result<(), Fault>)
    ensures
        checked(r) == alone(cached_fault(path@, is_file, is_symlink)),
{
    if is_file && !is_symlink {
        Ok(())
    } else {
        Err(Fault::new(concat2("依赖证据缓存不是普通文件：", path)))
    }
}

/// What is wrong with the answer to a download, before its body is read.
pub open spec fn response_fault(
    package: LockedView,
    is_ok: bool,
    status: Seq<char>,
    content_length: Option<u64>,
) -> Option<Seq<char>> {
    if !is_ok {
        Some(about("下载 crate 证据返回 HTTP "@ + status + "："@, package))
    } else if content_length matches Some(length) && length > MAX_ARCHIVE_BYTES {
        Some(about("crate 归档超过大小上限："@, package))
    } else {
        None
    }
}

/// Checks the answer to a download: whether its status, shown as `status`, is 200, and whether the
/// length that it announces is not too large.
pub fn check_response(
    package: &LockedCargoPackage,
    is_ok: bool,
    status: &str,
    content_length: Option<u64>,
) -> (r: Result<(), Fault>)
    ensures
        checked(r) == alone(response_fault(package@, is_ok, status@, content_length)),
{
    if !is_ok {
        let start = concat3("下载 crate 证据返回 HTTP ", status, "：");
        return Err(Fault::new(message_about(start.as_str(), package)));
    }
    if let Some(length) = content_length {
        if length > MAX_ARCHIVE_BYTES {
            return Err(Fault::new(message_about("crate 归档超过大小上限：", package)));
        }
    }
    Ok(())
}

/// What is wrong with a downloaded archive: it is too large, or not the one with the locked checksum.
pub open spec fn download_fault(package: LockedView, bytes: Seq<u8>) -> Option<Seq<char>> {
    if bytes.len() > MAX_ARCHIVE_BYTES {
        Some(about("crate 归档超过大小上限："@, package))
    } else {
        checksum_fault(package, bytes)
    }
}

/// Checks the size of a downloaded archive and holds it against the locked checksum.
pub fn check_download(package: &LockedCargoPackage, bytes: &Vec<u8>) -> (r: Result<(), Fault>)
    ensures
        checked(r) == alone(download_fault(package@, bytes@)),
{
    if bytes.len() as u64 > MAX_ARCHIVE_BYTES {
        return Err(Fault::new(message_about("crate 归档超过大小上限：", package)));
    }
    verify_archive_checksum(package, bytes.as_slice())
}

/// Whether two archives that were kept under one name have the same digest.
pub fn same_archive(left: &Vec<u8>, right: &Vec<u8>) -> (r: bool)
    requires
        digestible(left@.len()),
        digestible(right@.len()),
    ensures
        r == (hex_text(sha256(left@)) == hex_text(sha256(right@))),
{
    hex_digest(left.as_slice()) == hex_digest(right.as_slice())
}

/// What is wrong with an archive that someone else kept in the meantime: it is no regular file.
pub open spec fn rival_fault(path: Seq<char>, is_file: bool, is_symlink: bool) -> Option<
    Seq<char>,
> {
    if is_file && !is_symlink {
        None
    } else {
        Some("并发写入的依赖证据缓存不是普通文件："@ + path)
    }
}

/// Checks that an archive that someone else kept in the meantime is a regular file.
pub fn check_rival_file(path: &str, is_file: bool, is_symlink: bool) -> (r: Result<(), Fault>)
    ensures
        checked(r) == alone(rival_fault(path@, is_file, is_symlink)),
{
    if is_file && !is_symlink {
        Ok(())
    } else {
        Err(Fault::new(concat2("并发写入的依赖证据缓存不是普通文件：", path)))
    }
}

/// What is wrong with what someone else kept in the meantime: it is not the same archive.
pub open spec fn rival_content_fault(
    path: Seq<char>,
    existing: Seq<u8>,
    bytes: Seq<u8>,
) -> Option<Seq<char>> {
    if hex_text(sha256(existing)) == hex_text(sha256(bytes)) {
        None
    } else {
        Some("并发写入的依赖证据缓存内容不一致："@ + path)
    }
}

/// Checks that what someone else kept in the meantime is the same archive.
pub fn check_rival_content(path: &str, existing: &Vec<u8>, bytes: &Vec<u8>) -> (r: Result<
    (),
    Fault,
>)
    requires
        digestible(existing@.len()),
        digestible(bytes@.len()),
    ensures
        checked(r) == alone(rival_content_fault(path@, existing@, bytes@)),
{
    if same_archive(existing, bytes) {
        Ok(())
    } else {
        Err(Fault::new(concat2("并发写入的依赖证据缓存内容不一致：", path)))
    }
}

/// What is wrong with a path in an archive: it must be relative, start in the package's own
/// directory, and only lead down.
pub open spec fn archive_path_fault(path: Seq<char>, expected_root: Seq<char>) -> Option<Seq<char>> {
    if absolute(path) {
        Some("crate 归档包含绝对路径："@ + path)
    } else if parts(path).len() == 0 || !names_entry(parts(path)[0]) || parts(path)[0]
        != expected_root {
        Some("crate 归档根目录异常："@ + path)
    } else if exists|i: int| 1 <= i < parts(path).len() && !names_entry(#[trigger] parts(path)[i]) {
        Some("crate 归档包含越界路径："@ + path)
    } else {
        None
    }
}

/// Checks a path in an archive.
pub fn validate_archive_path(path: &str, expected_root: &str) -> (r: Result<(), Fault>)
    ensures
        checked(r) == alone(archive_path_fault(path@, expected_root@)),
{
    if is_absolute(path) {
        return Err(Fault::new(concat2("crate 归档包含绝对路径：", path)));
    }
    let all = path_parts(path);
    let ghost list = parts(path@);
    assert(texts(all@) == list);
    if all.len() == 0 {
        return Err(Fault::new(concat2("crate 归档根目录异常：", path)));
    }
    assert(list[0] == all@[0]@);
    if !is_entry_name(all[0].as_str()) || !same_text(all[0].as_str(), expected_root) {
        return Err(Fault::new(concat2("crate 归档根目录异常：", path)));
    }
    let mut i: usize = 1;
    while i < all.len()
        invariant
            texts(all@) == list,
            list == parts(path@),
            1 <= i <= all@.len(),
            list[0] == expected_root@,
            names_entry(list[0]),
            !absolute(path@),
            forall|j: int| 1 <= j < i ==> names_entry(#[trigger] list[j]),
        decreases all@.len() - i,
    {
        assert(list[i as int] == all@[i as int]@);
        if !is_entry_name(all[i].as_str()) {
            return Err(Fault::new(concat2("crate 归档包含越界路径：", path)));
        }
        i = i + 1;
    }
    Ok(())
}

} // verus!
