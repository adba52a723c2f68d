//! A model of the store's files, and what fetching and storing do to it.
//!
//! The files of a store are a map from paths to bytes. Fetching reads the map;
//! carrying out a plan changes it. The statements here are about every store
//! and every content, and they are proved.

use vstd::prelude::*;
use crate::error::StoreError;
use crate::hash::{is_object_hash, sha1_collision};
use crate::object::{lemma_round_trip, lemma_same_id_same_content};
use crate::object::{object_bytes, object_id, parse_object};
use crate::reader::reading_agrees;
use crate::store::{lemma_path_injective, path_of, stored_content, Committed};
use crate::zlib::{inflated, intact};

verus! {

/// The file at `path` among `files`, if there is one.
pub open spec fn file_at(files: Map<Seq<char>, Seq<u8>>, path: Seq<char>) -> Option<Seq<u8>> {
    if files.dom().contains(path) {
        Some(files[path])
    } else {
        None
    }
}

/// What fetching `hash` yields from a store under `root` whose files are
/// `files`, each file read in full and taken by its plain bytes.
pub open spec fn get_model(files: Map<Seq<char>, Seq<u8>>, root: Seq<char>, hash: Seq<char>)
    -> Result<Seq<u8>, StoreError> {
    if !is_object_hash(hash) {
        Err(StoreError::InvalidInput)
    } else {
        stored_content(file_at(files, path_of(root, hash)))
    }
}

/// The files of a store after a plan for the object `id` with bytes `packed`
/// has been carried out with the given outcome. Only a rename changes what
/// stands at an object's path; temporary files are not modelled.
pub open spec fn after_put(
    files: Map<Seq<char>, Seq<u8>>,
    root: Seq<char>,
    id: Seq<char>,
    packed: Seq<u8>,
    outcome: Committed,
) -> Map<Seq<char>, Seq<u8>> {
    if outcome == Committed::Renamed {
        files.insert(path_of(root, id), packed)
    } else {
        files
    }
}

/// Whether `outcome` can be what carrying out a plan for `id` ended in, given
/// the files before: a file is found already there only if it is there.
pub open spec fn outcome_fits(
    files: Map<Seq<char>, Seq<u8>>,
    root: Seq<char>,
    id: Seq<char>,
    outcome: Committed,
) -> bool {
    outcome == Committed::AlreadyThere ==> files.dom().contains(path_of(root, id))
}

/// Content addressing: whatever stands at the path of a hash is an object with
/// that hash.
pub open spec fn content_addressed(files: Map<Seq<char>, Seq<u8>>, root: Seq<char>) -> bool {
    forall|hash: Seq<char>| #[trigger]
        files.dom().contains(path_of(root, hash)) && is_object_hash(hash) ==> holds_object(
            files[path_of(root, hash)],
            hash,
        )
}

/// Whether `packed` is the stored form of some content whose hash is `hash`.
pub open spec fn holds_object(packed: Seq<u8>, hash: Seq<char>) -> bool {
    exists|content: Seq<u8>| #[trigger]
        is_content_of(packed, hash, content)
}

/// Whether `packed` is the stored form of `content`, and `hash` its hash: an
/// intact stream whose plain bytes hold the content.
pub open spec fn is_content_of(packed: Seq<u8>, hash: Seq<char>, content: Seq<u8>) -> bool {
    &&& content.len() <= u64::MAX
    &&& intact(packed)
    &&& parse_object(inflated(packed)) == Ok::<Seq<u8>, StoreError>(content)
    &&& object_id(content) == hash
}

/// Fetching a well-formed hash under which nothing is stored is `NotFound`;
/// fetching a malformed hash is `InvalidInput`, whatever the store holds.
pub proof fn lemma_get_without_object(
    files: Map<Seq<char>, Seq<u8>>,
    root: Seq<char>,
    hash: Seq<char>,
)
    ensures
        !is_object_hash(hash) ==> get_model(files, root, hash) == Err::<Seq<u8>, StoreError>(
            StoreError::InvalidInput,
        ),
        is_object_hash(hash) && !files.dom().contains(path_of(root, hash)) ==> get_model(
            files,
            root,
            hash,
        ) == Err::<Seq<u8>, StoreError>(StoreError::NotFound),
{
}

/// Once a plan for `content` has been carried out, fetching its hash yields
/// `content`.
///
/// Where the file was already there, it was put there for the same hash; it
/// then holds the same content unless SHA-1 has a collision on it.
pub proof fn lemma_get_after_put(
    files: Map<Seq<char>, Seq<u8>>,
    root: Seq<char>,
    content: Seq<u8>,
    id: Seq<char>,
    packed: Seq<u8>,
    outcome: Committed,
)
    requires
        content.len() <= u64::MAX,
        id == object_id(content),
        is_object_hash(id),
        inflated(packed) == object_bytes(content),
        intact(packed),
        outcome != Committed::Failed,
        outcome == Committed::AlreadyThere ==> content_addressed(files, root),
        outcome_fits(files, root, id, outcome),
    ensures
        get_model(after_put(files, root, id, packed, outcome), root, id) == Ok::<
            Seq<u8>,
            StoreError,
        >(content) || (outcome == Committed::AlreadyThere && exists|other: Seq<u8>|
            get_model(files, root, id) == Ok::<Seq<u8>, StoreError>(other) && #[trigger]
            sha1_collision(object_bytes(content), object_bytes(other))),
{
    lemma_round_trip(content);
    if outcome == Committed::AlreadyThere {
        let path = path_of(root, id);
        assert(holds_object(files[path], id));
        let other = choose|other: Seq<u8>| #[trigger] is_content_of(files[path], id, other);
        lemma_same_id_same_content(content, other);
        if content != other {
            assert(sha1_collision(object_bytes(content), object_bytes(other)));
        }
    }
}

/// As a caller sees it: fetching the bytes that a plan for `content` wrote
/// yields `content`, and nothing else.
pub proof fn lemma_fetch_of_stored(
    content: Seq<u8>,
    packed: Seq<u8>,
    got: Result<Vec<u8>, StoreError>,
)
    requires
        content.len() <= u64::MAX,
        inflated(packed) == object_bytes(content),
        intact(packed),
        reading_agrees(got, stored_content(Some(packed)), intact(packed)),
    ensures
        got matches Ok(bytes) && bytes@ == content,
{
    lemma_round_trip(content);
}

/// As a caller sees it: from a content-addressed store, fetching a hash whose
/// file is there yields content, the content that the model names, and that
/// content has the hash.
pub proof fn lemma_fetch_from_store(
    files: Map<Seq<char>, Seq<u8>>,
    root: Seq<char>,
    hash: Seq<char>,
    got: Result<Vec<u8>, StoreError>,
)
    requires
        content_addressed(files, root),
        is_object_hash(hash),
        files.dom().contains(path_of(root, hash)),
        reading_agrees(
            got,
            stored_content(Some(files[path_of(root, hash)])),
            intact(files[path_of(root, hash)]),
        ),
    ensures
        got matches Ok(bytes) && get_model(files, root, hash) == Ok::<Seq<u8>, StoreError>(bytes@)
            && object_id(bytes@) == hash,
{
    let packed = files[path_of(root, hash)];
    assert(holds_object(packed, hash));
}

/// Storing keeps the store content-addressed.
pub proof fn lemma_put_keeps_addressing(
    files: Map<Seq<char>, Seq<u8>>,
    root: Seq<char>,
    content: Seq<u8>,
    id: Seq<char>,
    packed: Seq<u8>,
    outcome: Committed,
)
    requires
        content.len() <= u64::MAX,
        id == object_id(content),
        is_object_hash(id),
        inflated(packed) == object_bytes(content),
        intact(packed),
        content_addressed(files, root),
    ensures
        content_addressed(after_put(files, root, id, packed, outcome), root),
{
    let after = after_put(files, root, id, packed, outcome);
    lemma_round_trip(content);
    assert forall|hash: Seq<char>| #[trigger]
        after.dom().contains(path_of(root, hash)) && is_object_hash(hash) implies holds_object(
        after[path_of(root, hash)],
        hash,
    ) by {
        if outcome == Committed::Renamed && path_of(root, hash) == path_of(root, id) {
            lemma_path_injective(root, hash, id);
            assert(is_content_of(packed, hash, content));
        } else {
            assert(files.dom().contains(path_of(root, hash)));
        }
    }
}

/// Storing the same content twice names the same hash both times, and
/// fetching that hash afterwards still yields the content, whether the second
/// rename replaced the file or found it there.
pub proof fn lemma_put_twice(
    files: Map<Seq<char>, Seq<u8>>,
    root: Seq<char>,
    content: Seq<u8>,
    first_id: Seq<char>,
    first_packed: Seq<u8>,
    second_id: Seq<char>,
    second_packed: Seq<u8>,
    second_outcome: Committed,
)
    requires
        content.len() <= u64::MAX,
        first_id == object_id(content),
        second_id == object_id(content),
        is_object_hash(first_id),
        inflated(first_packed) == object_bytes(content),
        inflated(second_packed) == object_bytes(content),
    ensures
        first_id == second_id,
        get_model(
            after_put(
                after_put(files, root, first_id, first_packed, Committed::Renamed),
                root,
                second_id,
                second_packed,
                second_outcome,
            ),
            root,
            second_id,
        ) == Ok::<Seq<u8>, StoreError>(content),
{
    lemma_round_trip(content);
}

} // verus!
