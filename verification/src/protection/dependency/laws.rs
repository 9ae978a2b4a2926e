//! What holds of every lock file and of every archive.

use vstd::prelude::*;

use crate::calls::archive::ArchiveCallView;
use crate::calls::RequestView;
use crate::data::{text_field, DataView};
use crate::digest::sha256;
use crate::journal::{Reply, Run};
use crate::path::{absolute, below, last_name, parts};
use crate::protection::dependency::archive::{
    archive_path_fault, cached_fault, coordinate_fault, download_fault, from_registry, locked_in,
    locked_of, outside_packages, response_fault, rival_content_fault, rival_fault, without_repeats,
    LockedView,
};
use crate::protection::dependency::graph::{
    is_root, nodes_of, package_entries, snapshot_fault, texts_among, NodeView,
};
use crate::protection::dependency::load::loaded;
use crate::protection::dependency::order::{lemma_sorted, sorted};
use crate::protection::dependency::scan::{
    added, at_start, entry_read, item_read, package_fault, packages_fault, scan_rest, unscanned,
    AuditView, Progress, Reading, MAX_SCAN_DOWNLOAD_BYTES,
};
use crate::protection::dependency::tarball::{EntryView, ItemView};
use crate::sync::steps::was_given;
use crate::text::bytes::{lossy, strict};
use crate::text::number::hex_text;
use crate::text::order::lemma_push_contains;
use crate::text::ascii_lower;

verus! {

/// Whether a package is what an entry of a lock file names: its name, version and source, and its
/// checksum in lower case, each empty where the entry has none.
pub open spec fn is_entry_of(package: LockedView, entry: DataView) -> bool {
    &&& package.name == text_field(entry, "name"@).unwrap_or(Seq::empty())
    &&& package.version == text_field(entry, "version"@).unwrap_or(Seq::empty())
    &&& package.source == text_field(entry, "source"@).unwrap_or(Seq::empty())
    &&& package.checksum == ascii_lower(text_field(entry, "checksum"@).unwrap_or(Seq::empty()))
}

proof fn lemma_outside_packages(entries: Seq<DataView>, package: LockedView)
    ensures
        outside_packages(entries).contains(package) <==> exists|i: int|
            0 <= i < entries.len() && is_entry_of(package, #[trigger] entries[i])
                && package.source.len() > 0,
    decreases entries.len(),
{
    if entries.len() > 0 {
        let before = entries.drop_last();
        lemma_outside_packages(before, package);
        lemma_push_contains(
            outside_packages(before),
            locked_of(entries.last()),
        );
        assert(is_entry_of(package, entries.last()) <==> package == locked_of(entries.last()));
        if exists|i: int|
            0 <= i < before.len() && is_entry_of(package, #[trigger] before[i])
                && package.source.len() > 0 {
            let i = choose|i: int|
                0 <= i < before.len() && is_entry_of(package, #[trigger] before[i])
                    && package.source.len() > 0;
            assert(entries[i] == before[i]);
        }
        if exists|i: int|
            0 <= i < entries.len() && is_entry_of(package, #[trigger] entries[i])
                && package.source.len() > 0 {
            let i = choose|i: int|
                0 <= i < entries.len() && is_entry_of(package, #[trigger] entries[i])
                    && package.source.len() > 0;
            if i < before.len() {
                assert(before[i] == entries[i]);
            }
        }
        if package == locked_of(entries.last()) {
            assert(is_entry_of(package, entries[entries.len() - 1]));
        }
    }
}

proof fn lemma_without_repeats(list: Seq<LockedView>, package: LockedView)
    ensures
        without_repeats(list).contains(package) <==> list.contains(package),
        list.len() > 0 ==> without_repeats(list).len() > 0 && without_repeats(list).last()
            == list.last(),
    decreases list.len(),
{
    if list.len() > 1 {
        let before = list.drop_last();
        lemma_without_repeats(before, package);
        lemma_push_contains(without_repeats(before), list.last());
        lemma_push_contains(before, list.last());
        assert(list =~= before.push(list.last()));
        if list.last() == list[list.len() - 2] {
            assert(before[before.len() - 1] == list.last());
            assert(before.contains(list.last()));
        }
    }
}

/// The packages of a lock file are those of its entries that have a source, and no others.
pub proof fn lemma_lock_names_its_packages(document: DataView, package: LockedView)
    ensures
        locked_in(document).contains(package) <==> exists|i: int|
            0 <= i < package_entries(document).len() && is_entry_of(
                package,
                #[trigger] package_entries(document)[i],
            ) && package.source.len() > 0,
{
    let list = outside_packages(package_entries(document));
    lemma_outside_packages(package_entries(document), package);
    lemma_sorted(list);
    list.to_multiset_ensures();
    sorted(list).to_multiset_ensures();
    assert(list.contains(package) <==> list.to_multiset().count(package) > 0);
    assert(sorted(list).contains(package) <==> sorted(list).to_multiset().count(package) > 0);
    lemma_without_repeats(sorted(list), package);
}

/// Whether a character is an ASCII letter or digit.
pub open spec fn is_letter_or_digit(c: char) -> bool {
    '0' <= c <= '9' || 'a' <= c <= 'z' || 'A' <= c <= 'Z'
}

/// A package is refused just where its name or its version has another character than those of
/// names and versions, or none, or its checksum is not sixty-four hexadecimal digits.
pub proof fn lemma_coordinates_are_plain(package: LockedView)
    ensures
        coordinate_fault(package) is None <==> {
            &&& package.name.len() > 0
            &&& forall|i: int|
                0 <= i < package.name.len() ==> is_letter_or_digit(#[trigger] package.name[i])
                    || package.name[i] == '-' || package.name[i] == '_'
            &&& package.version.len() > 0
            &&& forall|i: int|
                0 <= i < package.version.len() ==> is_letter_or_digit(#[trigger] package.version[i])
                    || package.version[i] == '.' || package.version[i] == '+' || package.version[i]
                    == '-'
            &&& package.checksum.len() == 64
            &&& forall|i: int|
                0 <= i < 64 ==> ('0' <= #[trigger] package.checksum[i] <= '9' || 'a'
                    <= package.checksum[i] <= 'f' || 'A' <= package.checksum[i] <= 'F')
        },
{
}

/// Two sources are the registry, and no others.
pub proof fn lemma_registry_has_two_sources(source: Seq<char>)
    ensures
        from_registry(source) <==> seq![
            "registry+https://github.com/rust-lang/crates.io-index"@,
            "sparse+https://index.crates.io/"@,
        ].contains(source),
{
    let known = seq![
        "registry+https://github.com/rust-lang/crates.io-index"@,
        "sparse+https://index.crates.io/"@,
    ];
    assert(known[0] == "registry+https://github.com/rust-lang/crates.io-index"@);
    assert(known[1] == "sparse+https://index.crates.io/"@);
}

/// A package that blocks a build is named, with its version and its source.
pub proof fn lemma_blocker_names_its_package(package: LockedView)
    ensures
        unscanned(package).rule_id == "SC-CARGO-UNSCANNED-SOURCE"@,
        unscanned(package).severity == "blocker"@,
        unscanned(package).path == "Cargo.lock"@,
        unscanned(package).evidence == package.name + " "@ + package.version + " source="@
            + package.source,
{
}

/// No more than two thousand and forty-eight packages are looked at.
pub proof fn lemma_packages_are_limited(packages: Seq<LockedView>)
    ensures
        packages_fault(packages) is None <==> packages.len() <= 2048,
{
}

/// An answer is read just where it went well and says of no more than sixty-four times 1024 times
/// 1024 bytes; and what was read is used just where it is not longer, and has the locked checksum.
pub proof fn lemma_downloads_are_limited(
    package: LockedView,
    is_ok: bool,
    status: Seq<char>,
    content_length: Option<u64>,
    bytes: Seq<u8>,
)
    ensures
        response_fault(package, is_ok, status, content_length) is None <==> is_ok && (
        content_length is None || content_length->0 <= 64 * 1024 * 1024),
        download_fault(package, bytes) is None <==> bytes.len() <= 64 * 1024 * 1024 && hex_text(
            sha256(bytes),
        ) == package.checksum,
{
}

/// A path of an archive is accepted just where it lies in the directory of the package: it starts
/// with the name of that directory, and no part of it leads up or stays where it is.
pub proof fn lemma_archive_path_lies_in_its_directory(path: Seq<char>, root: Seq<char>)
    requires
        root != "."@,
        root != ".."@,
    ensures
        archive_path_fault(path, root) is None <==> {
            &&& !absolute(path)
            &&& parts(path).len() > 0
            &&& parts(path)[0] == root
            &&& forall|i: int|
                0 <= i < parts(path).len() ==> #[trigger] parts(path)[i] != ".."@ && parts(path)[i]
                    != "."@
        },
{
}

/// Whether an archive is fetched, and kept, under its own name: the requests that loading it makes.
pub open spec fn is_load_step(
    package: LockedView,
    cache_root: Seq<char>,
    replies: Seq<Reply>,
    request: RequestView,
) -> bool {
    let place = below(cache_root, package.checksum + ".crate"@);
    match request {
        RequestView::Archive(ArchiveCallView::Exists { path }) => path == place,
        RequestView::Archive(ArchiveCallView::Inspect { path }) => path == place,
        RequestView::Archive(ArchiveCallView::Read { path }) => path == place,
        RequestView::Archive(ArchiveCallView::Fetch { url }) => url
            == "https://static.crates.io/crates/"@ + package.name + "/"@ + package.name + "-"@
            + package.version + ".crate"@,
        RequestView::Archive(ArchiveCallView::Body { limit }) => limit == 64 * 1024 * 1024 + 1,
        RequestView::Archive(ArchiveCallView::NewId) => true,
        RequestView::Archive(ArchiveCallView::Write { path, bytes }) => is_part_of(
            cache_root,
            replies,
            path,
        ) && (replies.len() > 2 && (replies[2] matches Reply::Bytes(found) && found@ == bytes)),
        RequestView::Archive(ArchiveCallView::Rename { from, to }) => is_part_of(
            cache_root,
            replies,
            from,
        ) && to == place,
        RequestView::Archive(ArchiveCallView::Remove { path }) => is_part_of(
            cache_root,
            replies,
            path,
        ),
        _ => false,
    }
}

/// Whether a path is that of an archive that is not yet whole, under a name that was given.
pub open spec fn is_part_of(cache_root: Seq<char>, replies: Seq<Reply>, path: Seq<char>) -> bool {
    exists|id: Seq<char>|
        was_given(replies, id) && path == below(
            cache_root,
            #[trigger] (".download-"@ + id + ".part"@),
        )
}

/// Loading an archive asks for nothing but its own place, its own address and what was fetched from
/// there.
pub proof fn lemma_load_asks_for_its_archive(
    package: LockedView,
    cache_root: Seq<char>,
    replies: Seq<Reply>,
)
    ensures
        loaded(package, cache_root, replies, 0) matches Run::Ask(request) ==> is_load_step(
            package,
            cache_root,
            replies,
            request,
        ),
{
    if replies.len() > 3 {
        if let Reply::Text(id) = replies[3] {
            assert(was_given(replies, id@));
            assert(is_part_of(
                cache_root,
                replies,
                below(cache_root, ".download-"@ + id@ + ".part"@),
            ));
        }
    }
}

/// Whether an entry of an archive is one to look at: a file under one of two names.
pub open spec fn is_looked_at(entry: EntryView) -> bool {
    !entry.is_dir && (last_name(lossy(entry.path)) == Some("Cargo.toml"@) || last_name(
        lossy(entry.path),
    ) == Some("build.rs"@))
}

/// Whether a file to look at is an entry of the archive of a package, with what the entry holds, under
/// a path that names the package.
pub open spec fn is_file_of(package: LockedView, entry: EntryView, file: AuditView) -> bool {
    &&& entry.size matches Some(size) && size <= 16 * 1024 * 1024
    &&& entry.content matches Some(bytes) && strict(bytes) == Some(file.content)
    &&& file.display_path == "crate:"@ + package.name + "@"@ + package.version + "/"@ + lossy(
        entry.path,
    )
    &&& file.is_manifest <==> last_name(lossy(entry.path)) == Some("Cargo.toml"@)
}

/// The entries to look at, in order.
pub open spec fn looked_at(items: Seq<ItemView>) -> Seq<EntryView>
    decreases items.len(),
{
    if items.len() == 0 {
        Seq::empty()
    } else {
        let rest = looked_at(items.skip(1));
        match items[0] {
            ItemView::Entry(entry) => if is_looked_at(entry) {
                seq![entry] + rest
            } else {
                rest
            },
            ItemView::Unreadable => rest,
        }
    }
}

proof fn lemma_rest_is_looked_at(package: LockedView, at: Progress, items: Seq<ItemView>)
    requires
        scan_rest(package, at, items).trouble is None,
    ensures
        ({
            let files = scan_rest(package, at, items).files;
            let entries = looked_at(items);
            &&& files.len() == at.files.len() + entries.len()
            &&& files.take(at.files.len() as int) == at.files
            &&& forall|i: int|
                0 <= i < entries.len() ==> is_file_of(
                    package,
                    #[trigger] entries[i],
                    files[at.files.len() + i],
                )
        }),
    decreases items.len(),
{
    let files = scan_rest(package, at, items).files;
    if items.len() == 0 {
        assert(files.take(at.files.len() as int) =~= at.files);
    } else if let Reading::On(next) = item_read(package, at, items[0]) {
        lemma_rest_is_looked_at(package, next, items.skip(1));
        let entry = items[0]->Entry_0;
        let rest = looked_at(items.skip(1));
        let entries = looked_at(items);
        if is_looked_at(entry) {
            assert(next.files.len() == at.files.len() + 1);
            assert(next.files.take(at.files.len() as int) =~= at.files);
            assert(files.take(at.files.len() as int) =~= files.take(next.files.len() as int).take(
                at.files.len() as int,
            ));
            assert(files[at.files.len() as int] == files.take(
                next.files.len() as int,
            )[at.files.len() as int]);
            assert(is_file_of(package, entry, next.files[at.files.len() as int]));
            assert forall|i: int| 0 <= i < entries.len() implies is_file_of(
                package,
                #[trigger] entries[i],
                files[at.files.len() + i],
            ) by {
                if i > 0 {
                    assert(entries[i] == rest[i - 1]);
                    assert(is_file_of(package, rest[i - 1], files[next.files.len() + (i - 1)]));
                }
            }
        } else {
            assert(next.files == at.files);
        }
    }
}

/// Of an archive that is accepted the files to look at are handed out, each with what it holds and
/// under a path that names the package, in order, and no others.
pub proof fn lemma_archive_hands_out_its_files(package: LockedView, items: Seq<ItemView>)
    requires
        scan_rest(package, at_start(), items).trouble is None,
    ensures
        ({
            let files = scan_rest(package, at_start(), items).files;
            let entries = looked_at(items);
            &&& files.len() == entries.len()
            &&& forall|i: int|
                0 <= i < entries.len() ==> is_file_of(package, #[trigger] entries[i], files[i])
        }),
{
    lemma_rest_is_looked_at(package, at_start(), items);
    let files = scan_rest(package, at_start(), items).files;
    let entries = looked_at(items);
    assert forall|i: int| 0 <= i < entries.len() implies is_file_of(
        package,
        #[trigger] entries[i],
        files[i],
    ) by {
        assert(is_file_of(package, entries[i], files[at_start().files.len() + i]));
    }
}

/// An archive of more than twenty thousand entries, or of more than two hundred and fifty-six times
/// 1024 times 1024 bytes, is refused at the entry that goes beyond.
pub proof fn lemma_archive_is_limited(package: LockedView, at: Progress, entry: EntryView)
    ensures
        entry_read(package, at, entry) matches Reading::On(next) ==> {
            &&& next.entries == at.entries + 1
            &&& next.entries <= 20000
            &&& !entry.is_dir ==> entry.is_file && (entry.size matches Some(size) && next.expanded
                == at.expanded + size && next.expanded <= 256 * 1024 * 1024)
            &&& entry.is_dir ==> next.expanded == at.expanded
        },
{
}

/// Each entry of a lock file is a package of the graph: its name, version and source, each empty where
/// the entry has none, and the texts among its dependencies.
pub proof fn lemma_graph_has_a_package_for_each_entry(document: DataView)
    ensures
        nodes_of(document).len() == package_entries(document).len(),
        forall|i: int|
            0 <= i < package_entries(document).len() ==> {
                let entry = #[trigger] package_entries(document)[i];
                let node = nodes_of(document)[i];
                &&& node.name == text_field(entry, "name"@).unwrap_or(Seq::empty())
                &&& node.version == text_field(entry, "version"@).unwrap_or(Seq::empty())
                &&& node.source == text_field(entry, "source"@).unwrap_or(Seq::empty())
                &&& entry matches DataView::Table(fields) ==> (fields.contains_key("dependencies"@)
                    ==> (fields["dependencies"@] matches DataView::List(items) ==> forall|
                    text: Seq<char>,
                |
                    #[trigger] node.dependencies.contains(text) <==> items.contains(
                        DataView::Text(text),
                    )))
            },
{
    assert forall|i: int| 0 <= i < package_entries(document).len() implies {
        let entry = #[trigger] package_entries(document)[i];
        let node = nodes_of(document)[i];
        &&& node.name == text_field(entry, "name"@).unwrap_or(Seq::empty())
        &&& node.version == text_field(entry, "version"@).unwrap_or(Seq::empty())
        &&& node.source == text_field(entry, "source"@).unwrap_or(Seq::empty())
        &&& entry matches DataView::Table(fields) ==> (fields.contains_key("dependencies"@) ==> (
        fields["dependencies"@] matches DataView::List(items) ==> forall|text: Seq<char>|
            #[trigger] node.dependencies.contains(text) <==> items.contains(DataView::Text(text))))
    } by {
        let entry = package_entries(document)[i];
        if let DataView::Table(fields) = entry {
            if fields.contains_key("dependencies"@) {
                if let DataView::List(items) = fields["dependencies"@] {
                    assert forall|text: Seq<char>| #[trigger]
                        nodes_of(document)[i].dependencies.contains(text) <==> items.contains(
                        DataView::Text(text),
                    ) by {
                        lemma_texts_among(items, text);
                    }
                }
            }
        }
    }
}

proof fn lemma_texts_among(items: Seq<DataView>, text: Seq<char>)
    ensures
        texts_among(items).contains(text) <==> items.contains(DataView::Text(text)),
    decreases items.len(),
{
    if items.len() > 0 {
        let before = items.drop_last();
        lemma_texts_among(before, text);
        lemma_push_contains(before, items.last());
        assert(items =~= before.push(items.last()));
        if let DataView::Text(last) = items.last() {
            lemma_push_contains(texts_among(before), last);
        }
    }
}

/// A graph is read just where it has no more than two thousand and forty-eight packages and at least
/// one without a source.
pub proof fn lemma_graph_has_a_root(nodes: Seq<NodeView>)
    ensures
        snapshot_fault(nodes) is None <==> nodes.len() <= 2048 && exists|i: int|
            0 <= i < nodes.len() && (#[trigger] nodes[i]).source.len() == 0,
{
    if exists|i: int| 0 <= i < nodes.len() && (#[trigger] nodes[i]).source.len() == 0 {
        let i = choose|i: int| 0 <= i < nodes.len() && (#[trigger] nodes[i]).source.len() == 0;
        assert(is_root(nodes, i));
    }
    if exists|i: int| is_root(nodes, i) {
        let i = choose|i: int| is_root(nodes, i);
        assert(nodes[i].source.len() == 0);
    }
}

/// What is kept is used just where it is a file of its own and no link; and what another process kept
/// meanwhile stands just where it holds the same.
pub proof fn lemma_kept_archives_are_plain_files(
    path: Seq<char>,
    is_file: bool,
    is_symlink: bool,
    existing: Seq<u8>,
    bytes: Seq<u8>,
)
    ensures
        cached_fault(path, is_file, is_symlink) is None <==> is_file && !is_symlink,
        rival_fault(path, is_file, is_symlink) is None <==> is_file && !is_symlink,
        rival_content_fault(path, existing, bytes) is None <==> hex_text(sha256(existing))
            == hex_text(sha256(bytes)),
{
}

/// A package of the registry is looked at just where it has a checksum and plain coordinates.
pub proof fn lemma_package_needs_a_checksum(package: LockedView)
    ensures
        package_fault(package) is None <==> package.checksum.len() > 0 && coordinate_fault(package)
            is None,
{
}

/// No more than five hundred and twelve times 1024 times 1024 bytes are downloaded for one walk, and
/// what is downloaded is added up, up to the largest number.
pub proof fn lemma_walk_is_limited(total: u64, more: u64)
    ensures
        MAX_SCAN_DOWNLOAD_BYTES == 512 * 1024 * 1024,
        added(total, more) >= total,
        added(total, more) >= more,
        total + more <= u64::MAX ==> added(total, more) == total + more,
{
}

} // verus!
