//! Loading the archive of a locked package.
//!
//! An archive that was kept is read again; any other is downloaded from the one fixed address and
//! then kept. Either way it is held against the locked checksum before anything is done with it.

use vstd::prelude::*;

use crate::calls::archive::{ArchiveCall, ArchiveCallView};
use crate::calls::{Request, RequestView};
use crate::digest::digestible;
use crate::fault::Fault;
use crate::journal::{
    asked, caught, follows, in_context, passed, took, Halt, Journal, Reply, Run,
};
use crate::path::{below, path_below};
use crate::protection::dependency::archive::{
    about, archive_address, archive_url, cache_file_name, cached_fault, check_cached_file,
    check_download, check_response, check_rival_content, check_rival_file, checksum_fault,
    download_fault, message_about, response_fault, rival_content_fault, rival_fault,
    verify_archive_checksum, LockedCargoPackage, LockedView, MAX_ARCHIVE_BYTES,
};
use crate::replay::{answers, request_of};
use crate::repo::{FileFacts, ResponseFacts};
use crate::text::{concat2, concat3};

verus! {

/// An archive with the locked checksum, and how many bytes were downloaded for it.
pub struct LoadedArchive<'a> {
    pub bytes: &'a Vec<u8>,
    pub downloaded: u64,
}

/// The model of a loaded archive.
pub struct LoadedView {
    pub bytes: Seq<u8>,
    pub downloaded: u64,
}

impl<'a> View for LoadedArchive<'a> {
    type V = LoadedView;

    open spec fn view(&self) -> LoadedView {
        LoadedView { bytes: self.bytes@, downloaded: self.downloaded }
    }
}

/// A request about an archive.
pub open spec fn archive(call: ArchiveCallView) -> RequestView {
    RequestView::Archive(call)
}

/// Where the archive of a package is kept.
pub open spec fn cache_path(cache_root: Seq<char>, package: LockedView) -> Seq<char> {
    below(cache_root, package.checksum + ".crate"@)
}

/// Where an archive is written before it gets its name.
pub open spec fn part_path(cache_root: Seq<char>, id: Seq<char>) -> Seq<char> {
    below(cache_root, ".download-"@ + id + ".part"@)
}

/// The largest body that is read: one byte more than an archive may have.
pub open spec fn body_limit() -> u64 {
    (MAX_ARCHIVE_BYTES + 1) as u64
}

/// What is wrong with the content of a kept archive.
pub open spec fn kept_content_fault(package: LockedView, bytes: Seq<u8>) -> Option<Seq<char>> {
    if !digestible(bytes.len()) {
        Some("content is too long for a digest"@)
    } else {
        checksum_fault(package, bytes)
    }
}

/// Reads an archive that was kept.
pub open spec fn reread(package: LockedView, path: Seq<char>, replies: Seq<Reply>, at: nat) -> Run<
    LoadedView,
> {
    match asked::<FileFacts>(replies, at, archive(ArchiveCallView::Inspect { path })) {
        Run::Ask(request) => Run::Ask(request),
        Run::Fail(chain, at) => Run::Fail(chain, at),
        Run::On(facts, at) => match cached_fault(path, facts.is_file, facts.is_symlink) {
            Some(message) => Run::Fail(seq![message], at),
            None => match in_context(
                asked::<Vec<u8>>(replies, at, archive(ArchiveCallView::Read { path })),
                "读取依赖证据缓存失败："@ + path,
            ) {
                Run::Ask(request) => Run::Ask(request),
                Run::Fail(chain, at) => Run::Fail(chain, at),
                Run::On(bytes, at) => match kept_content_fault(package, bytes@) {
                    Some(message) => Run::Fail(seq![message], at),
                    None => Run::On(LoadedView { bytes: bytes@, downloaded: 0 }, at),
                },
            },
        },
    }
}

/// Downloads an archive.
pub open spec fn fetched(package: LockedView, replies: Seq<Reply>, at: nat) -> Run<Vec<u8>> {
    match in_context(
        asked::<ResponseFacts>(
            replies,
            at,
            archive(ArchiveCallView::Fetch { url: archive_address(package) }),
        ),
        about("下载 crate 证据失败："@, package),
    ) {
        Run::Ask(request) => Run::Ask(request),
        Run::Fail(chain, at) => Run::Fail(chain, at),
        Run::On(facts, at) => match response_fault(
            package,
            facts.is_ok,
            facts.status@,
            facts.content_length,
        ) {
            Some(message) => Run::Fail(seq![message], at),
            None => match asked::<Vec<u8>>(
                replies,
                at,
                archive(ArchiveCallView::Body { limit: body_limit() }),
            ) {
                Run::Ask(request) => Run::Ask(request),
                Run::Fail(chain, at) => Run::Fail(chain, at),
                Run::On(bytes, at) => match download_fault(package, bytes@) {
                    Some(message) => Run::Fail(seq![message], at),
                    None => Run::On(bytes, at),
                },
            },
        },
    }
}

/// Goes on where an archive could not get its name: where someone else has kept the same one, that
/// one stays.
pub open spec fn rivalled(
    part: Seq<char>,
    path: Seq<char>,
    bytes: Seq<u8>,
    chain: Seq<Seq<char>>,
    replies: Seq<Reply>,
    at: nat,
) -> Run<()> {
    match asked::<bool>(replies, at, archive(ArchiveCallView::Exists { path })) {
        Run::Ask(request) => Run::Ask(request),
        Run::Fail(chain, at) => Run::Fail(chain, at),
        Run::On(false, at) => Run::Fail(chain, at),
        Run::On(true, at) => match asked::<FileFacts>(
            replies,
            at,
            archive(ArchiveCallView::Inspect { path }),
        ) {
            Run::Ask(request) => Run::Ask(request),
            Run::Fail(chain, at) => Run::Fail(chain, at),
            Run::On(facts, at) => match rival_fault(path, facts.is_file, facts.is_symlink) {
                Some(message) => Run::Fail(seq![message], at),
                None => match asked::<Vec<u8>>(
                    replies,
                    at,
                    archive(ArchiveCallView::Read { path }),
                ) {
                    Run::Ask(request) => Run::Ask(request),
                    Run::Fail(chain, at) => Run::Fail(chain, at),
                    Run::On(existing, at) => if !digestible(existing@.len()) {
                        Run::Fail(seq!["content is too long for a digest"@], at)
                    } else {
                        match rival_content_fault(path, existing@, bytes) {
                            Some(message) => Run::Fail(seq![message], at),
                            None => asked::<()>(
                                replies,
                                at,
                                archive(ArchiveCallView::Remove { path: part }),
                            ),
                        }
                    },
                },
            },
        },
    }
}

/// Writes an archive and gives it its name.
pub open spec fn named(
    part: Seq<char>,
    path: Seq<char>,
    bytes: Seq<u8>,
    replies: Seq<Reply>,
    at: nat,
) -> Run<()> {
    match asked::<()>(replies, at, archive(ArchiveCallView::Write { path: part, bytes })) {
        Run::Ask(request) => Run::Ask(request),
        Run::Fail(chain, at) => Run::Fail(chain, at),
        Run::On(_, at) => match caught(
            asked::<()>(replies, at, archive(ArchiveCallView::Rename { from: part, to: path })),
        ) {
            Run::Ask(request) => Run::Ask(request),
            Run::Fail(chain, at) => Run::Fail(chain, at),
            Run::On(Ok(_), at) => Run::On((), at),
            Run::On(Err(chain), at) => rivalled(part, path, bytes, chain, replies, at),
        },
    }
}

/// Keeps an archive. What was written of one that cannot be kept is removed.
pub open spec fn stored(
    cache_root: Seq<char>,
    path: Seq<char>,
    bytes: Seq<u8>,
    replies: Seq<Reply>,
    at: nat,
) -> Run<()> {
    match asked::<String>(replies, at, archive(ArchiveCallView::NewId)) {
        Run::Ask(request) => Run::Ask(request),
        Run::Fail(chain, at) => Run::Fail(chain, at),
        Run::On(id, at) => match named(part_path(cache_root, id@), path, bytes, replies, at) {
            Run::Ask(request) => Run::Ask(request),
            Run::On(_, at) => Run::On((), at),
            Run::Fail(chain, at) => match passed(
                caught(
                    asked::<()>(
                        replies,
                        at,
                        archive(ArchiveCallView::Remove { path: part_path(cache_root, id@) }),
                    ),
                ),
            ) {
                Run::Ask(request) => Run::Ask(request),
                Run::Fail(other, at) => Run::Fail(other, at),
                Run::On(_, at) => Run::Fail(chain, at),
            },
        },
    }
}

/// Loads the archive of a package: the one that was kept, or a download that is kept then.
pub open spec fn loaded(
    package: LockedView,
    cache_root: Seq<char>,
    replies: Seq<Reply>,
    at: nat,
) -> Run<LoadedView> {
    let path = cache_path(cache_root, package);
    match asked::<bool>(replies, at, archive(ArchiveCallView::Exists { path })) {
        Run::Ask(request) => Run::Ask(request),
        Run::Fail(chain, at) => Run::Fail(chain, at),
        Run::On(true, at) => reread(package, path, replies, at),
        Run::On(false, at) => match fetched(package, replies, at) {
            Run::Ask(request) => Run::Ask(request),
            Run::Fail(chain, at) => Run::Fail(chain, at),
            Run::On(bytes, at) => match stored(cache_root, path, bytes@, replies, at) {
                Run::Ask(request) => Run::Ask(request),
                Run::Fail(chain, at) => Run::Fail(chain, at),
                Run::On(_, at) => Run::On(
                    LoadedView { bytes: bytes@, downloaded: bytes@.len() as u64 },
                    at,
                ),
            },
        },
    }
}

fn is_digestible(bytes: &Vec<u8>) -> (r: bool)
    ensures
        r == digestible(bytes@.len()),
{
    (bytes.len() as u64) < 0x2000_0000_0000_0000
}

fn read_again<'a>(package: &LockedCargoPackage, path: &str, journal: &mut Journal<'a>) -> (r: Result<
    LoadedArchive<'a>,
    Halt<'a>,
>)
    ensures
        follows(
            *old(journal),
            *final(journal),
            r,
            reread(package@, path@, old(journal).all(), old(journal).at()),
        ),
{
    let facts: &'a FileFacts = journal.ask(
        Request::Archive(ArchiveCall::Inspect { path: path.to_owned() }),
    )?;
    if let Err(fault) = check_cached_file(path, facts.is_file, facts.is_symlink) {
        return Err(Halt::Fail(fault));
    }
    let bytes: &'a Vec<u8> = match journal.ask(
        Request::Archive(ArchiveCall::Read { path: path.to_owned() }),
    ) {
        Ok(bytes) => bytes,
        Err(halt) => {
            return Err(halt.context(concat2("读取依赖证据缓存失败：", path)));
        },
    };
    if !is_digestible(bytes) {
        return Err(Halt::Fail(Fault::of("content is too long for a digest")));
    }
    match verify_archive_checksum(package, bytes.as_slice()) {
        Ok(()) => Ok(LoadedArchive { bytes, downloaded: 0 }),
        Err(fault) => Err(Halt::Fail(fault)),
    }
}

fn download<'a>(package: &LockedCargoPackage, journal: &mut Journal<'a>) -> (r: Result<
    &'a Vec<u8>,
    Halt<'a>,
>)
    ensures
        took(
            *old(journal),
            *final(journal),
            r,
            fetched(package@, old(journal).all(), old(journal).at()),
        ),
{
    let facts: &'a ResponseFacts = match journal.ask(
        Request::Archive(ArchiveCall::Fetch { url: archive_url(package) }),
    ) {
        Ok(facts) => facts,
        Err(halt) => {
            return Err(halt.context(message_about("下载 crate 证据失败：", package)));
        },
    };
    if let Err(fault) = check_response(
        package,
        facts.is_ok,
        facts.status.as_str(),
        facts.content_length,
    ) {
        return Err(Halt::Fail(fault));
    }
    let bytes: &'a Vec<u8> = journal.ask(
        Request::Archive(ArchiveCall::Body { limit: MAX_ARCHIVE_BYTES + 1 }),
    )?;
    match check_download(package, bytes) {
        Ok(()) => Ok(bytes),
        Err(fault) => Err(Halt::Fail(fault)),
    }
}

fn yield_to_rival<'a>(
    part: &str,
    path: &str,
    bytes: &'a Vec<u8>,
    first: Fault,
    journal: &mut Journal<'a>,
) -> (r: Result<(), Halt<'a>>)
    requires
        digestible(bytes@.len()),
    ensures
        follows(
            *old(journal),
            *final(journal),
            r,
            rivalled(part@, path@, bytes@, first@, old(journal).all(), old(journal).at()),
        ),
{
    let exists: &'a bool = journal.ask(
        Request::Archive(ArchiveCall::Exists { path: path.to_owned() }),
    )?;
    if !*exists {
        return Err(Halt::Fail(first));
    }
    let facts: &'a FileFacts = journal.ask(
        Request::Archive(ArchiveCall::Inspect { path: path.to_owned() }),
    )?;
    if let Err(fault) = check_rival_file(path, facts.is_file, facts.is_symlink) {
        return Err(Halt::Fail(fault));
    }
    let existing: &'a Vec<u8> = journal.ask(
        Request::Archive(ArchiveCall::Read { path: path.to_owned() }),
    )?;
    if !is_digestible(existing) {
        return Err(Halt::Fail(Fault::of("content is too long for a digest")));
    }
    if let Err(fault) = check_rival_content(path, existing, bytes) {
        return Err(Halt::Fail(fault));
    }
    let _: &'a () = journal.ask(Request::Archive(ArchiveCall::Remove { path: part.to_owned() }))?;
    Ok(())
}

fn write_and_name<'a>(part: &str, path: &str, bytes: &'a Vec<u8>, journal: &mut Journal<'a>) -> (r:
    Result<(), Halt<'a>>)
    requires
        digestible(bytes@.len()),
    ensures
        follows(
            *old(journal),
            *final(journal),
            r,
            named(part@, path@, bytes@, old(journal).all(), old(journal).at()),
        ),
{
    let _: &'a () = journal.ask(
        Request::Archive(ArchiveCall::Write { path: part.to_owned(), bytes }),
    )?;
    match journal.ask::<()>(
        Request::Archive(ArchiveCall::Rename { from: part.to_owned(), to: path.to_owned() }),
    ) {
        Ok(_) => Ok(()),
        Err(Halt::Ask(request)) => Err(Halt::Ask(request)),
        Err(Halt::Fail(fault)) => yield_to_rival(part, path, bytes, fault, journal),
    }
}

/// Keeps an archive under its path: written beside it first, so that there is never half of one.
pub fn write_cache_atomically<'a>(
    cache_root: &str,
    path: &str,
    bytes: &'a Vec<u8>,
    journal: &mut Journal<'a>,
) -> (r: Result<(), Halt<'a>>)
    requires
        digestible(bytes@.len()),
    ensures
        follows(
            *old(journal),
            *final(journal),
            r,
            stored(cache_root@, path@, bytes@, old(journal).all(), old(journal).at()),
        ),
{
    let id: &'a String = journal.ask(Request::Archive(ArchiveCall::NewId))?;
    let name = concat3(".download-", id.as_str(), ".part");
    let part = path_below(cache_root, name.as_str());
    match write_and_name(part.as_str(), path, bytes, journal) {
        Ok(()) => Ok(()),
        Err(Halt::Ask(request)) => Err(Halt::Ask(request)),
        Err(Halt::Fail(fault)) => {
            match journal.ask::<()>(Request::Archive(ArchiveCall::Remove { path: part })) {
                Err(Halt::Ask(request)) => Err(Halt::Ask(request)),
                _ => Err(Halt::Fail(fault)),
            }
        },
    }
}

/// Whether a result is what loading an archive came to.
pub open spec fn is_loaded<'a>(
    r: Result<LoadedArchive<'a>, Halt<'a>>,
    run: Run<LoadedView>,
) -> bool {
    match run {
        Run::Ask(request) => r matches Err(Halt::Ask(found)) && found@ == request,
        Run::Fail(chain, _) => r matches Err(Halt::Fail(fault)) && fault@ == chain,
        Run::On(archive, _) => r matches Ok(found) && found@ == archive,
    }
}

/// Loads the archive of a package, with the directory in which archives are kept.
pub fn load_crate_archive<'a>(
    package: &LockedCargoPackage,
    cache_root: &str,
    replies: &'a Vec<Reply>,
) -> (r: Result<LoadedArchive<'a>, Halt<'a>>)
    ensures
        is_loaded(r, loaded(package@, cache_root@, replies@, 0)),
{
    let mut journal = Journal::new(replies);
    let name = cache_file_name(package);
    let path = path_below(cache_root, name.as_str());
    let exists: &'a bool = journal.ask(
        Request::Archive(ArchiveCall::Exists { path: path.clone() }),
    )?;
    if *exists {
        return read_again(package, path.as_str(), &mut journal);
    }
    let bytes = download(package, &mut journal)?;
    write_cache_atomically(cache_root, path.as_str(), bytes, &mut journal)?;
    Ok(LoadedArchive { bytes, downloaded: bytes.len() as u64 })
}

/// What loading an archive asks for.
pub open spec fn load_asks(package: LockedView, cache_root: Seq<char>) -> spec_fn(
    Seq<Reply>,
) -> Option<RequestView> {
    |replies: Seq<Reply>| request_of(loaded(package, cache_root, replies, 0))
}

/// Whether an archive is the one that was kept under its checksum.
pub open spec fn comes_from_the_cache(
    package: LockedView,
    cache_root: Seq<char>,
    replies: Seq<Reply>,
    archive_bytes: Seq<u8>,
) -> bool {
    let asks = load_asks(package, cache_root);
    let path = cache_path(cache_root, package);
    &&& answers(asks, replies, 1, archive(ArchiveCallView::Inspect { path }))
    &&& replies[1] matches Reply::Facts(facts) && facts.is_file && !facts.is_symlink
    &&& answers(asks, replies, 2, archive(ArchiveCallView::Read { path }))
    &&& replies[2] matches Reply::Bytes(bytes) && bytes@ == archive_bytes
}

/// Whether an archive is one that was downloaded from the fixed address, with status 200.
pub open spec fn comes_from_the_net(
    package: LockedView,
    cache_root: Seq<char>,
    replies: Seq<Reply>,
    archive_bytes: Seq<u8>,
) -> bool {
    let asks = load_asks(package, cache_root);
    &&& answers(
        asks,
        replies,
        1,
        archive(ArchiveCallView::Fetch { url: archive_address(package) }),
    )
    &&& replies[1] matches Reply::Response(facts) && facts.is_ok
    &&& answers(asks, replies, 2, archive(ArchiveCallView::Body { limit: body_limit() }))
    &&& replies[2] matches Reply::Bytes(bytes) && bytes@ == archive_bytes
    &&& archive_bytes.len() <= MAX_ARCHIVE_BYTES
}

/// Whether an archive is kept under its checksum: what was written beside it got its name, or
/// someone else has kept a regular file there with the same digest.
pub open spec fn is_kept(
    package: LockedView,
    cache_root: Seq<char>,
    replies: Seq<Reply>,
    archive_bytes: Seq<u8>,
) -> bool {
    let asks = load_asks(package, cache_root);
    let path = cache_path(cache_root, package);
    &&& replies.len() > 5
    &&& replies[3] matches Reply::Text(id) && {
        let part = part_path(cache_root, id@);
        &&& answers(
            asks,
            replies,
            4,
            archive(ArchiveCallView::Write { path: part, bytes: archive_bytes }),
        )
        &&& replies[4] is Done
        &&& answers(asks, replies, 5, archive(ArchiveCallView::Rename { from: part, to: path }))
    }
    &&& replies[5] is Done || {
        &&& answers(asks, replies, 7, archive(ArchiveCallView::Inspect { path }))
        &&& replies[7] matches Reply::Facts(facts) && facts.is_file && !facts.is_symlink
        &&& answers(asks, replies, 8, archive(ArchiveCallView::Read { path }))
        &&& replies[8] matches Reply::Bytes(existing) && rival_content_fault(
            path,
            existing@,
            archive_bytes,
        ) is None
    }
}

/// An archive that is loaded has the locked checksum. Either it was kept under that checksum, and
/// nothing was downloaded; or it was downloaded from the fixed address, all of its bytes are
/// counted, and it is kept under its checksum now.
pub proof fn lemma_loaded_archive_is_the_locked_one(
    package: LockedView,
    cache_root: Seq<char>,
    replies: Seq<Reply>,
)
    ensures
        loaded(package, cache_root, replies, 0) matches Run::On(found, _) ==> {
            &&& checksum_fault(package, found.bytes) is None
            &&& ({
                &&& found.downloaded == 0
                &&& comes_from_the_cache(package, cache_root, replies, found.bytes)
            }) || ({
                &&& found.downloaded == found.bytes.len()
                &&& comes_from_the_net(package, cache_root, replies, found.bytes)
                &&& is_kept(package, cache_root, replies, found.bytes)
            })
        },
{
    if let Run::On(_, _) = loaded(package, cache_root, replies, 0) {
        let one = replies.take(1);
        let two = replies.take(2);
        assert(one[0] == replies[0]);
        assert(two[0] == replies[0]);
        assert(two[1] == replies[1]);
        if replies[0] == Reply::Flag(false) {
            let four = replies.take(4);
            assert(four[0] == replies[0] && four[1] == replies[1]);
            assert(four[2] == replies[2] && four[3] == replies[3]);
            let five = replies.take(5);
            assert(five[0] == replies[0] && five[1] == replies[1]);
            assert(five[2] == replies[2] && five[3] == replies[3] && five[4] == replies[4]);
            if !(replies[5] is Done) {
                let seven = replies.take(7);
                assert(seven[0] == replies[0] && seven[1] == replies[1]);
                assert(seven[2] == replies[2] && seven[3] == replies[3]);
                assert(seven[4] == replies[4] && seven[5] == replies[5] && seven[6] == replies[6]);
                let eight = replies.take(8);
                assert(eight[0] == replies[0] && eight[1] == replies[1]);
                assert(eight[2] == replies[2] && eight[3] == replies[3]);
                assert(eight[4] == replies[4] && eight[5] == replies[5]);
                assert(eight[6] == replies[6] && eight[7] == replies[7]);
            }
        }
    }
}

/// Whether a request changes what is kept.
pub open spec fn changes_the_cache(request: RequestView) -> bool {
    match request {
        RequestView::Archive(ArchiveCallView::Write { .. }) => true,
        RequestView::Archive(ArchiveCallView::Rename { .. }) => true,
        RequestView::Archive(ArchiveCallView::Remove { .. }) => true,
        _ => false,
    }
}

/// Whether a request is a step of keeping an archive: writing it beside its place, giving it its
/// name, or taking away what was written beside its place.
pub open spec fn is_step_of_keeping(
    package: LockedView,
    cache_root: Seq<char>,
    id: Seq<char>,
    bytes: Seq<u8>,
    request: RequestView,
) -> bool {
    let part = part_path(cache_root, id);
    let path = cache_path(cache_root, package);
    ||| request == archive(ArchiveCallView::Write { path: part, bytes })
    ||| request == archive(ArchiveCallView::Rename { from: part, to: path })
    ||| request == archive(ArchiveCallView::Remove { path: part })
}

/// Nothing that is kept changes before an archive was downloaded whole and has the locked checksum.
/// Then just that archive is written beside its place, gets its name, or is taken away again; so
/// where an archive is refused, nothing is kept of it.
pub proof fn lemma_what_is_refused_is_not_kept(
    package: LockedView,
    cache_root: Seq<char>,
    replies: Seq<Reply>,
)
    ensures
        loaded(package, cache_root, replies, 0) matches Run::Ask(request) ==> (changes_the_cache(
            request,
        ) ==> {
            &&& replies.len() > 3
            &&& replies[0] == Reply::Flag(false)
            &&& replies[2] matches Reply::Bytes(bytes) && {
                &&& download_fault(package, bytes@) is None
                &&& comes_from_the_net(package, cache_root, replies, bytes@)
                &&& replies[3] matches Reply::Text(id) && is_step_of_keeping(
                    package,
                    cache_root,
                    id@,
                    bytes@,
                    request,
                )
            }
        }),
{
    if let Run::Ask(request) = loaded(package, cache_root, replies, 0) {
        if changes_the_cache(request) {
            let one = replies.take(1);
            let two = replies.take(2);
            assert(one[0] == replies[0]);
            assert(two[0] == replies[0]);
            assert(two[1] == replies[1]);
        }
    }
}

} // verus!
