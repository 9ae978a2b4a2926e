use std::io::Write;

use flate2::write::GzEncoder;
use flate2::Compression;
use tar::{Builder, EntryType, Header};
use termiters::calls::archive::ArchiveCall;
use termiters::calls::Request;
use termiters::digest::hex_digest;
use termiters::fault::Fault;
use termiters::journal::{Halt, Reply};
use termiters::protection::dependency::archive::{
    archive_url, cache_file_name, check_cached_file, check_download, check_response,
    is_crates_io_source, locked_packages, same_archive, validate_archive_path,
    validate_package_coordinate, verify_archive_checksum, LockedCargoPackage,
};
use termiters::protection::dependency::graph::cargo_reachability_snapshot;
use termiters::protection::dependency::load::load_crate_archive;
use termiters::protection::dependency::scan::{
    audit_archive, check_cache_root, scan_crate_archive, scan_locked_cargo_dependencies,
};
use termiters::repo::{FileFacts, ResponseFacts};

const REGISTRY: &str = "registry+https://github.com/rust-lang/crates.io-index";

fn package(name: &str, version: &str, checksum: &str) -> LockedCargoPackage {
    LockedCargoPackage {
        name: name.to_string(),
        version: version.to_string(),
        source: REGISTRY.to_string(),
        checksum: checksum.to_string(),
    }
}

fn append(archive: &mut Builder<GzEncoder<Vec<u8>>>, path: &str, body: &[u8]) {
    let mut header = Header::new_gnu();
    header.set_size(body.len() as u64);
    header.set_mode(0o644);
    header.set_cksum();
    archive.append_data(&mut header, path, body).unwrap();
}

fn archive(files: &[(&str, &[u8])]) -> Vec<u8> {
    let mut builder = Builder::new(GzEncoder::new(Vec::new(), Compression::default()));
    for (path, body) in files {
        append(&mut builder, path, body);
    }
    builder.finish().unwrap();
    builder.into_inner().unwrap().finish().unwrap()
}

#[test]
fn lock_graph_reports_only_packages_reachable_from_workspace_roots() {
    let lock = r#"version = 4

[[package]]
name = "app"
version = "0.1.0"
dependencies = ["used 1.0.0"]

[[package]]
name = "used"
version = "1.0.0"
source = "registry+https://github.com/rust-lang/crates.io-index"
checksum = "aaaaaaaaaaaaaaaaaaaaaaaaaaaaaaaaaaaaaaaaaaaaaaaaaaaaaaaaaaaaaaaa"

[[package]]
name = "unused"
version = "9.0.0"
source = "registry+https://github.com/rust-lang/crates.io-index"
checksum = "bbbbbbbbbbbbbbbbbbbbbbbbbbbbbbbbbbbbbbbbbbbbbbbbbbbbbbbbbbbbbbbb"
"#;
    let snapshot = cargo_reachability_snapshot("Cargo.lock", Some(lock))
        .unwrap()
        .unwrap();
    assert!(snapshot
        .reachable_packages
        .iter()
        .any(|package| package.name == "used"));
    assert!(!snapshot
        .reachable_packages
        .iter()
        .any(|package| package.name == "unused"));
    assert_eq!(snapshot.roots, vec!["app 0.1.0".to_string()]);
    assert_eq!(snapshot.reachable_packages[0].source, "workspace");
    assert!(snapshot.ambiguous_edges.is_empty());
}

#[test]
fn a_project_without_a_lock_file_has_no_graph() {
    assert!(cargo_reachability_snapshot("Cargo.lock", None)
        .unwrap()
        .is_none());
}

#[test]
fn doubtful_dependencies_are_listed_once_and_sorted() {
    let lock = r#"
[[package]]
name = "app"
version = "0.1.0"
dependencies = ["two", "gone 2.0.0", "two"]

[[package]]
name = "two"
version = "1.0.0"
source = "x"

[[package]]
name = "two"
version = "2.0.0"
source = "x"
"#;
    let snapshot = cargo_reachability_snapshot("Cargo.lock", Some(lock))
        .unwrap()
        .unwrap();
    assert_eq!(
        snapshot.ambiguous_edges,
        vec![
            "app -> gone 2.0.0 (missing)".to_string(),
            "app -> two".to_string()
        ]
    );
    assert_eq!(snapshot.reachable_packages.len(), 3);
    assert_eq!(snapshot.reachable_packages[1].version, "1.0.0");
    assert_eq!(snapshot.reachable_packages[2].version, "2.0.0");
}

#[test]
fn lock_files_that_cannot_be_used_are_faults() {
    let fault = cargo_reachability_snapshot("dir/Cargo.lock", Some("not = = toml")).unwrap_err();
    assert_eq!(fault.chain.len(), 2);
    assert_eq!(fault.chain[0], "解析 Cargo.lock 失败：dir/Cargo.lock");
    let fault = cargo_reachability_snapshot("Cargo.lock", Some("version = 4")).unwrap_err();
    assert_eq!(fault.text(), "Cargo.lock 中没有可识别的本地根包");
    let mut many = String::new();
    for i in 0..2049 {
        many.push_str(&format!(
            "[[package]]\nname = \"p{}\"\nversion = \"1.0.0\"\n",
            i
        ));
    }
    let fault = cargo_reachability_snapshot("Cargo.lock", Some(&many)).unwrap_err();
    assert_eq!(fault.text(), "Cargo.lock 包数量超过依赖图上限");
}

#[test]
fn locked_packages_are_sorted_and_listed_once() {
    let lock = r#"
[[package]]
name = "own"
version = "0.1.0"

[[package]]
name = "b"
version = "1.0.0"
source = "s"
checksum = "ABCD"

[[package]]
name = "a"
version = "2.0.0"
source = "s"

[[package]]
name = "b"
version = "1.0.0"
source = "s"
checksum = "abcd"
"#;
    let packages = locked_packages("Cargo.lock", lock).unwrap();
    assert_eq!(packages.len(), 2);
    assert_eq!(packages[0].name, "a");
    assert_eq!(packages[0].checksum, "");
    assert_eq!(packages[1].name, "b");
    assert_eq!(packages[1].checksum, "abcd");
    assert_eq!(
        locked_packages("x", "=").unwrap_err().chain[0],
        "解析 Cargo.lock 失败：x"
    );
}

#[test]
fn archive_path_must_stay_under_exact_package_root() {
    assert!(validate_archive_path("pkg-1.0.0/src/lib.rs", "pkg-1.0.0").is_ok());
    assert!(validate_archive_path("other/src/lib.rs", "pkg-1.0.0").is_err());
    assert!(validate_archive_path("../outside", "pkg-1.0.0").is_err());
}

#[test]
fn archive_path_faults_are_told_apart() {
    let text = |path: &str| {
        validate_archive_path(path, "pkg-1.0.0")
            .unwrap_err()
            .text()
    };
    assert_eq!(text("/pkg-1.0.0/a"), "crate 归档包含绝对路径：/pkg-1.0.0/a");
    assert_eq!(text(""), "crate 归档根目录异常：");
    assert_eq!(text("./pkg-1.0.0/a"), "crate 归档根目录异常：./pkg-1.0.0/a");
    assert_eq!(
        text("pkg-1.0.0/../../etc"),
        "crate 归档包含越界路径：pkg-1.0.0/../../etc"
    );
    assert!(validate_archive_path("pkg-1.0.0/./a//b", "pkg-1.0.0").is_ok());
}

#[test]
fn coordinates_are_checked_in_order() {
    let hash = "a".repeat(64);
    assert!(validate_package_coordinate(&package("serde_json-x", "1.0.0+b.1-rc", &hash)).is_ok());
    let text = |p: LockedCargoPackage| validate_package_coordinate(&p).unwrap_err().text();
    assert_eq!(text(package("a/b", "", "")), "非法 crate 名称：a/b");
    assert_eq!(text(package("", "1", &hash)), "非法 crate 名称：");
    assert_eq!(text(package("a", "1/0", "")), "非法 crate 版本：1/0");
    assert_eq!(text(package("a", "1", "zz")), "非法 crate 校验和：a");
    assert_eq!(text(package("a", "1", &"g".repeat(64))), "非法 crate 校验和：a");
}

#[test]
fn only_the_public_registry_is_scanned() {
    assert!(is_crates_io_source(REGISTRY));
    assert!(is_crates_io_source("sparse+https://index.crates.io/"));
    assert!(!is_crates_io_source("git+https://example.invalid/x"));
}

#[test]
fn archives_are_held_against_their_checksum() {
    let digest = "ba7816bf8f01cfea414140de5dae2223b00361a396177a9cb410ff61f20015ad";
    assert_eq!(hex_digest(b"abc"), digest);
    let good = package("a", "1", digest);
    assert!(verify_archive_checksum(&good, b"abc").is_ok());
    assert_eq!(
        verify_archive_checksum(&good, b"abd").unwrap_err().text(),
        "crate 归档校验和不匹配：a 1"
    );
    assert!(check_download(&good, &b"abc".to_vec()).is_ok());
    assert_eq!(
        check_download(&good, &vec![0u8; 67_108_865]).unwrap_err().text(),
        "crate 归档超过大小上限：a 1"
    );
    assert!(same_archive(&b"abc".to_vec(), &b"abc".to_vec()));
    assert!(!same_archive(&b"abc".to_vec(), &b"abd".to_vec()));
    assert_eq!(cache_file_name(&good), format!("{}.crate", digest));
    assert_eq!(
        archive_url(&good),
        "https://static.crates.io/crates/a/a-1.crate"
    );
}

#[test]
fn downloads_and_caches_are_checked() {
    let p = package("a", "1", "");
    assert!(check_response(&p, true, "200 OK", Some(67_108_864)).is_ok());
    assert!(check_response(&p, true, "200 OK", None).is_ok());
    assert_eq!(
        check_response(&p, false, "404 Not Found", None)
            .unwrap_err()
            .text(),
        "下载 crate 证据返回 HTTP 404 Not Found：a 1"
    );
    assert_eq!(
        check_response(&p, true, "200 OK", Some(67_108_865))
            .unwrap_err()
            .text(),
        "crate 归档超过大小上限：a 1"
    );
    assert!(check_cached_file("c", true, false).is_ok());
    assert_eq!(
        check_cached_file("c", true, true).unwrap_err().text(),
        "依赖证据缓存不是普通文件：c"
    );
    assert!(check_cache_root("d", true, false).is_ok());
    assert_eq!(
        check_cache_root("d", true, true).unwrap_err().text(),
        "依赖证据缓存目录不能是符号链接：d"
    );
}

#[test]
fn manifests_and_build_scripts_are_read_and_nothing_is_run() {
    let bytes = archive(&[
        (
            "fixture-build-1.0.0/Cargo.toml",
            b"[package]\nname='fixture-build'\nversion='1.0.0'\n",
        ),
        (
            "fixture-build-1.0.0/build.rs",
            b"compile_error!(\"static fixture only\");",
        ),
        ("fixture-build-1.0.0/src/lib.rs", b"pub fn a() {}"),
    ]);
    let scan = scan_crate_archive(&package("fixture-build", "1.0.0", ""), &bytes);
    assert!(scan.fault.is_none());
    assert_eq!(scan.files.len(), 2);
    assert_eq!(
        scan.files[0].display_path,
        "crate:fixture-build@1.0.0/fixture-build-1.0.0/Cargo.toml"
    );
    assert!(scan.files[0].is_manifest);
    assert!(!scan.files[1].is_manifest);
    assert_eq!(
        scan.files[1].content,
        "compile_error!(\"static fixture only\");"
    );
}

#[test]
fn archives_that_do_not_fit_are_refused() {
    let p = package("pkg", "1.0.0", "");
    let fault = |files: &[(&str, &[u8])]| scan_crate_archive(&p, &archive(files)).fault.unwrap();
    assert_eq!(
        fault(&[("pkg-1.0.0/src/lib.rs", b"")]).text(),
        "crate 归档缺少 Cargo.toml：pkg 1.0.0"
    );
    assert_eq!(
        fault(&[("other/Cargo.toml", b"")]).text(),
        "crate 归档根目录异常：other/Cargo.toml"
    );
    let broken = fault(&[("pkg-1.0.0/Cargo.toml", b"\xff\xfe")]);
    assert_eq!(broken.chain.len(), 2);
    assert_eq!(
        broken.chain[0],
        "crate 静态审计文件不是 UTF-8：pkg-1.0.0/Cargo.toml"
    );
    let scan = scan_crate_archive(&p, b"not an archive");
    assert_eq!(scan.fault.unwrap().chain[0], "读取 crate 归档条目失败");
    let scan = scan_crate_archive(
        &p,
        &archive(&[("pkg-1.0.0/Cargo.toml", b"x"), ("elsewhere/build.rs", b"y")]),
    );
    assert_eq!(scan.files.len(), 1);
    assert_eq!(
        scan.fault.unwrap().text(),
        "crate 归档根目录异常：elsewhere/build.rs"
    );
}

#[test]
fn links_in_archives_are_refused() {
    let mut builder = Builder::new(GzEncoder::new(Vec::new(), Compression::default()));
    let mut header = Header::new_gnu();
    header.set_entry_type(EntryType::Symlink);
    header.set_size(0);
    header.set_mode(0o644);
    builder
        .append_link(&mut header, "pkg-1.0.0/Cargo.toml", "/etc/passwd")
        .unwrap();
    builder.finish().unwrap();
    let bytes = builder.into_inner().unwrap().finish().unwrap();
    let scan = scan_crate_archive(&package("pkg", "1.0.0", ""), &bytes);
    assert_eq!(
        scan.fault.unwrap().text(),
        "crate 归档包含非普通文件条目：pkg-1.0.0/Cargo.toml"
    );
}

#[test]
fn large_entries_are_refused() {
    let big = vec![b' '; 16_777_217];
    let p = package("pkg", "1.0.0", "");
    let scan = scan_crate_archive(&p, &archive(&[("pkg-1.0.0/Cargo.toml", &big)]));
    assert_eq!(
        scan.fault.unwrap().text(),
        "crate 静态审计文件超过大小上限：pkg-1.0.0/Cargo.toml"
    );
    let mut builder = Builder::new(GzEncoder::new(Vec::new(), Compression::fast()));
    for i in 0..17 {
        append(&mut builder, &format!("pkg-1.0.0/data{}", i), &big);
    }
    builder.finish().unwrap();
    let bytes = builder.into_inner().unwrap().finish().unwrap();
    assert_eq!(
        scan_crate_archive(&p, &bytes).fault.unwrap().text(),
        "crate 归档展开大小超过上限：pkg 1.0.0"
    );
}

#[test]
fn directories_are_passed_over_and_entries_are_counted() {
    let mut builder = Builder::new(GzEncoder::new(Vec::new(), Compression::fast()));
    for i in 0..20_001 {
        let mut header = Header::new_gnu();
        header.set_entry_type(EntryType::Directory);
        header.set_size(0);
        header.set_mode(0o755);
        header.set_cksum();
        builder
            .append_data(&mut header, format!("pkg-1.0.0/d{}", i), &b""[..])
            .unwrap();
    }
    builder.finish().unwrap();
    let bytes = builder.into_inner().unwrap().finish().unwrap();
    let scan = scan_crate_archive(&package("pkg", "1.0.0", ""), &bytes);
    assert_eq!(
        scan.fault.unwrap().text(),
        "crate 归档条目超过 20000 个：pkg 1.0.0"
    );
}

#[test]
fn a_walk_hands_out_registry_packages_and_notes_the_others() {
    let bytes = archive(&[("b-1.0.0/Cargo.toml", b"[package]\n")]);
    let hash = hex_digest(&bytes);
    let lock = format!(
        "[[package]]\nname = \"a\"\nversion = \"1.0.0\"\nsource = \"git+https://example.invalid/a\"\n\n[[package]]\nname = \"b\"\nversion = \"1.0.0\"\nsource = \"{}\"\nchecksum = \"{}\"\n",
        REGISTRY, hash
    );
    let mut walk = scan_locked_cargo_dependencies("Cargo.lock", Some(&lock))
        .unwrap()
        .unwrap();
    assert_eq!(walk.next_package().unwrap().unwrap().name, "b");
    assert_eq!(
        walk.take_archive(&b"other".to_vec(), 5).unwrap_err().text(),
        "crate 归档校验和不匹配：b 1.0.0"
    );
    assert_eq!(walk.next_package().unwrap().unwrap().name, "b");
    let found = walk.take_archive(&bytes, 536_870_912).unwrap();
    assert!(found.fault.is_none());
    assert_eq!(found.files.len(), 1);
    assert!(walk.next_package().unwrap().is_none());
    let blockers = walk.source_blockers();
    assert_eq!(blockers.len(), 1);
    assert_eq!(blockers[0].rule_id, "SC-CARGO-UNSCANNED-SOURCE");
    assert_eq!(blockers[0].severity, "blocker");
    assert_eq!(blockers[0].path, "Cargo.lock");
    assert_eq!(
        blockers[0].evidence,
        "a 1.0.0 source=git+https://example.invalid/a"
    );
}

#[test]
fn a_walk_stops_at_packages_that_cannot_be_checked() {
    let lock = format!(
        "[[package]]\nname = \"b\"\nversion = \"1.0.0\"\nsource = \"{}\"\n",
        REGISTRY
    );
    let mut walk = scan_locked_cargo_dependencies("Cargo.lock", Some(&lock))
        .unwrap()
        .unwrap();
    assert_eq!(
        walk.next_package().unwrap_err().text(),
        "crates.io 依赖缺少校验和：b 1.0.0"
    );
    let bad = format!("{}checksum = \"xyz\"\n", lock);
    let mut walk = scan_locked_cargo_dependencies("Cargo.lock", Some(&bad))
        .unwrap()
        .unwrap();
    assert_eq!(
        walk.next_package().unwrap_err().text(),
        "非法 crate 校验和：b"
    );
}

#[test]
fn walks_need_a_lock_file_that_is_not_too_long() {
    assert!(scan_locked_cargo_dependencies("Cargo.lock", None)
        .unwrap()
        .is_none());
    assert!(scan_locked_cargo_dependencies("Cargo.lock", Some("=")).is_err());
    let mut many = String::new();
    for i in 0..2049 {
        many.push_str(&format!(
            "[[package]]\nname = \"p{}\"\nversion = \"1.0.0\"\nsource = \"s\"\n",
            i
        ));
    }
    match scan_locked_cargo_dependencies("Cargo.lock", Some(&many)) {
        Err(fault) => assert_eq!(
            fault.text(),
            "Cargo.lock 包含超过 2048 个外部包，已拒绝自动取证"
        ),
        Ok(_) => panic!("expected a fault"),
    }
}

#[test]
fn a_gzip_stream_that_ends_early_is_refused() {
    let whole = archive(&[("pkg-1.0.0/Cargo.toml", b"[package]\n")]);
    let mut encoder = GzEncoder::new(Vec::new(), Compression::default());
    encoder.write_all(b"short").unwrap();
    let short = encoder.finish().unwrap();
    let p = package("pkg", "1.0.0", "");
    assert!(scan_crate_archive(&p, &short).fault.is_some());
    assert!(scan_crate_archive(&p, &whole[..20]).fault.is_some());
}

#[test]
fn archives_come_from_one_endpoint() {
    let mut wanted = package("serde_json", "1.0.0+build-2", "");
    wanted.checksum = "a".repeat(64);
    assert!(validate_package_coordinate(&wanted).is_ok());
    assert_eq!(
        archive_url(&wanted),
        "https://static.crates.io/crates/serde_json/serde_json-1.0.0+build-2.crate"
    );
    for name in ["../x", "a/b", "a?b", "a@b", "a:b", "a%2f", "a.b", "ä"] {
        wanted.name = name.to_string();
        assert!(validate_package_coordinate(&wanted).is_err(), "{}", name);
    }
}

#[test]
fn a_walk_stops_at_archives_that_do_not_come_through() {
    let good = archive(&[("b-1.0.0/Cargo.toml", b"[package]\n")]);
    let bare = archive(&[("b-1.0.0/build.rs", b"fn main() {}\n")]);
    let walk = |bytes: &Vec<u8>| {
        let lock = format!(
            "[[package]]\nname = \"b\"\nversion = \"1.0.0\"\nsource = \"{}\"\nchecksum = \"{}\"\n",
            REGISTRY,
            hex_digest(bytes)
        );
        let mut walk = scan_locked_cargo_dependencies("Cargo.lock", Some(&lock))
            .unwrap()
            .unwrap();
        assert!(walk.next_package().unwrap().is_some());
        walk
    };
    let mut large = walk(&good);
    assert_eq!(
        large.take_archive(&good, 536_870_913).unwrap_err().text(),
        "单次依赖取证下载超过 536870912 字节，已停止"
    );
    assert!(large.next_package().unwrap().is_some());
    let mut faulty = walk(&bare);
    let found = faulty.take_archive(&bare, 1).unwrap();
    assert_eq!(found.files.len(), 1);
    assert_eq!(
        found.fault.unwrap().text(),
        "crate 归档缺少 Cargo.toml：b 1.0.0"
    );
    assert!(faulty.next_package().unwrap().is_some());
    let checked = package("b", "1.0.0", &hex_digest(&good));
    assert!(audit_archive(&checked, &good).unwrap().fault.is_none());
    assert_eq!(
        audit_archive(&checked, &bare).unwrap_err().text(),
        "crate 归档校验和不匹配：b 1.0.0"
    );
}

fn raw_archive(path: &[u8]) -> Vec<u8> {
    let body = b"[package]\n";
    let mut header = Header::new_gnu();
    header.as_mut_bytes()[..path.len()].copy_from_slice(path);
    header.set_entry_type(EntryType::Regular);
    header.set_size(body.len() as u64);
    header.set_mode(0o644);
    header.set_cksum();
    let mut builder = Builder::new(GzEncoder::new(Vec::new(), Compression::default()));
    builder.append(&header, &body[..]).unwrap();
    builder.finish().unwrap();
    builder.into_inner().unwrap().finish().unwrap()
}

#[test]
fn the_directory_of_a_package_is_told_by_its_bytes() {
    let scan = |name: &str, path: &[u8]| {
        scan_crate_archive(&package(name, "1", ""), &raw_archive(path))
            .fault
            .map(|fault| fault.text())
    };
    assert_eq!(scan("b", b"b-1/Cargo.toml"), None);
    assert_eq!(
        scan("\u{fffd}", b"\xff-1/Cargo.toml"),
        Some("crate 归档根目录异常：\u{fffd}-1/Cargo.toml".to_string())
    );
    assert_eq!(
        scan("b", b"b-12/Cargo.toml"),
        Some("crate 归档根目录异常：b-12/Cargo.toml".to_string())
    );
    assert_eq!(
        scan("b", b"/b-1/Cargo.toml"),
        Some("crate 归档包含绝对路径：/b-1/Cargo.toml".to_string())
    );
    assert_eq!(
        scan("b", b"b-1/\xff"),
        Some("crate 归档缺少 Cargo.toml：b 1".to_string())
    );
}

fn step(request: &Request<'_>) -> String {
    match request {
        Request::Archive(call) => match call {
            ArchiveCall::Exists { path } => format!("exists {}", path),
            ArchiveCall::Inspect { path } => format!("inspect {}", path),
            ArchiveCall::Read { path } => format!("read {}", path),
            ArchiveCall::Fetch { url } => format!("fetch {}", url),
            ArchiveCall::Body { limit } => format!("body {}", limit),
            ArchiveCall::NewId => "id".to_string(),
            ArchiveCall::Write { path, bytes } => format!("write {} {}", path, bytes.len()),
            ArchiveCall::Rename { from, to } => format!("rename {} {}", from, to),
            ArchiveCall::Remove { path } => format!("remove {}", path),
        },
        _ => "other".to_string(),
    }
}

fn load(replies: Vec<Reply>) -> (Vec<String>, Result<(Vec<u8>, u64), String>) {
    let wanted = package("a", "1", &hex_digest(b"abc"));
    let mut given = Vec::new();
    let mut log = Vec::new();
    let mut left = replies.into_iter();
    loop {
        match load_crate_archive(&wanted, "/cache", &given) {
            Ok(found) => return (log, Ok((found.bytes.clone(), found.downloaded))),
            Err(Halt::Fail(fault)) => return (log, Err(fault.text())),
            Err(Halt::Ask(request)) => log.push(step(&request)),
        }
        given.push(left.next().unwrap());
    }
}

fn file(is_symlink: bool) -> Reply {
    Reply::Facts(FileFacts {
        is_file: !is_symlink,
        is_symlink,
    })
}

fn response(is_ok: bool, content_length: Option<u64>) -> Reply {
    Reply::Response(ResponseFacts {
        is_ok,
        status: if is_ok { "200 OK" } else { "404 Not Found" }.to_string(),
        content_length,
    })
}

fn bytes(content: &[u8]) -> Reply {
    Reply::Bytes(content.to_vec())
}

#[test]
fn archives_that_were_kept_are_checked_and_cost_nothing() {
    let path = format!("/cache/{}.crate", hex_digest(b"abc"));
    let (log, found) = load(vec![Reply::Flag(true), file(false), bytes(b"abc")]);
    assert_eq!(
        log,
        vec![
            format!("exists {}", path),
            format!("inspect {}", path),
            format!("read {}", path)
        ]
    );
    assert_eq!(found, Ok((b"abc".to_vec(), 0)));
    assert_eq!(
        load(vec![Reply::Flag(true), file(true)]).1,
        Err(format!("依赖证据缓存不是普通文件：{}", path))
    );
    assert_eq!(
        load(vec![Reply::Flag(true), file(false), bytes(b"abd")]).1,
        Err("crate 归档校验和不匹配：a 1".to_string())
    );
    assert_eq!(
        load(vec![
            Reply::Flag(true),
            file(false),
            Reply::Failed(Fault::of("gone"))
        ])
        .1,
        Err(format!("读取依赖证据缓存失败：{}: gone", path))
    );
}

#[test]
fn archives_that_are_downloaded_are_checked_counted_and_kept() {
    let path = format!("/cache/{}.crate", hex_digest(b"abc"));
    let (log, found) = load(vec![
        Reply::Flag(false),
        response(true, Some(3)),
        bytes(b"abc"),
        Reply::Text("7".to_string()),
        Reply::Done,
        Reply::Done,
    ]);
    assert_eq!(
        log,
        vec![
            format!("exists {}", path),
            "fetch https://static.crates.io/crates/a/a-1.crate".to_string(),
            "body 67108865".to_string(),
            "id".to_string(),
            "write /cache/.download-7.part 3".to_string(),
            format!("rename /cache/.download-7.part {}", path)
        ]
    );
    assert_eq!(found, Ok((b"abc".to_vec(), 3)));
}

#[test]
fn archives_that_are_refused_are_not_kept() {
    for (replies, message) in [
        (
            vec![Reply::Flag(false), Reply::Failed(Fault::of("refused"))],
            "下载 crate 证据失败：a 1: refused",
        ),
        (
            vec![Reply::Flag(false), response(false, None)],
            "下载 crate 证据返回 HTTP 404 Not Found：a 1",
        ),
        (
            vec![Reply::Flag(false), response(true, Some(67_108_865))],
            "crate 归档超过大小上限：a 1",
        ),
        (
            vec![Reply::Flag(false), response(true, None), bytes(b"abd")],
            "crate 归档校验和不匹配：a 1",
        ),
        (
            vec![
                Reply::Flag(false),
                response(true, None),
                bytes(&vec![0; 67_108_865]),
            ],
            "crate 归档超过大小上限：a 1",
        ),
    ] {
        let (log, found) = load(replies);
        assert_eq!(found, Err(message.to_string()));
        assert!(!log.iter().any(|l| l.starts_with("write")
            || l.starts_with("rename")
            || l.starts_with("remove")));
    }
}

#[test]
fn archives_that_someone_else_kept_in_the_meantime_are_compared() {
    let path = format!("/cache/{}.crate", hex_digest(b"abc"));
    let rivalled = |rest: Vec<Reply>| {
        let mut replies = vec![
            Reply::Flag(false),
            response(true, None),
            bytes(b"abc"),
            Reply::Text("7".to_string()),
            Reply::Done,
            Reply::Failed(Fault::of("taken")),
        ];
        replies.extend(rest);
        load(replies)
    };
    let (log, found) = rivalled(vec![
        Reply::Flag(true),
        file(false),
        bytes(b"abc"),
        Reply::Done,
    ]);
    assert_eq!(found, Ok((b"abc".to_vec(), 3)));
    assert_eq!(log.last().unwrap(), "remove /cache/.download-7.part");
    for (rest, message) in [
        (vec![Reply::Flag(false), Reply::Done], "taken".to_string()),
        (
            vec![Reply::Flag(true), file(true), Reply::Failed(Fault::of("x"))],
            format!("并发写入的依赖证据缓存不是普通文件：{}", path),
        ),
        (
            vec![Reply::Flag(true), file(false), bytes(b"abd"), Reply::Done],
            format!("并发写入的依赖证据缓存内容不一致：{}", path),
        ),
    ] {
        let (log, found) = rivalled(rest);
        assert_eq!(found, Err(message));
        assert_eq!(log.last().unwrap(), "remove /cache/.download-7.part");
    }
}
