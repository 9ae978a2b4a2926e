//! Loading that is started anew.

use vstd::prelude::*;

use crate::journal::Reply;
use crate::protection::dependency::archive::LockedView;
use crate::protection::dependency::load::{loaded, stored};
use crate::replay::{lemma_asked_is_steady, steady};

verus! {

/// What `stored` comes to rests on the replies that it has read alone.
pub broadcast proof fn lemma_stored_is_steady(
    cache_root: Seq<char>,
    path: Seq<char>,
    bytes: Seq<u8>,
    replies: Seq<Reply>,
    more: Seq<Reply>,
    at: nat,
)
    ensures
        steady(
            at,
            replies.len(),
            stored(cache_root, path, bytes, replies, at),
            #[trigger] stored(cache_root, path, bytes, replies + more, at),
        ),
{
    broadcast use lemma_asked_is_steady;
}

/// Loading an archive is started anew with each reply; once it has come to an end, further replies
/// change nothing, and before that it asks.
pub broadcast proof fn lemma_loaded_is_steady(
    package: LockedView,
    cache_root: Seq<char>,
    replies: Seq<Reply>,
    more: Seq<Reply>,
    at: nat,
)
    ensures
        steady(
            at,
            replies.len(),
            loaded(package, cache_root, replies, at),
            #[trigger] loaded(package, cache_root, replies + more, at),
        ),
{
    broadcast use {lemma_asked_is_steady, lemma_stored_is_steady};
}

} // verus!
