//! The object store: where an object lives, and what storing and fetching do.
//!
//! The store itself is a directory tree that the caller owns. This module
//! decides; the caller acts. A fetch is `plan_get`, the caller's read of the
//! file named, and `conclude_get`. A store is `plan_put`, the caller's write to
//! the temporary file and rename to the final one, and `conclude_put`.
//!
//! What the two do to a store is stated over a model of its files, in the
//! module `model`.

use vstd::prelude::*;
use crate::error::StoreError;
use crate::hash::{check_object_hash, is_hex_char, is_object_hash, HASH_LEN};
use crate::header::{all_digits, decimal, digits_value, is_digit, lemma_decimal_round_trip};
use crate::header::write_size;
use crate::object::{object_bytes, object_id, parse_object};
use crate::reader::{read_blob, reading_agrees};
use crate::writer::{write_blob, PackedObject};
use crate::zlib::{inflated, intact, refused_on};

verus! {

/// The directory of an object: `<root>/<first 2 characters of the hash>`.
pub open spec fn fan_dir_of(root: Seq<char>, hash: Seq<char>) -> Seq<char> {
    root + seq!['/'] + hash.subrange(0, 2)
}

/// The file of an object: `<root>/<first 2 characters>/<remaining 38>`.
pub open spec fn path_of(root: Seq<char>, hash: Seq<char>) -> Seq<char> {
    fan_dir_of(root, hash) + seq!['/'] + hash.subrange(2, HASH_LEN as int)
}

/// The decimal digits of `n` as characters.
pub open spec fn decimal_text(n: nat) -> Seq<char> {
    decimal(n).map_values(|b: u8| b as char)
}

/// The temporary file of one writer: `<root>/tmp_obj_<pid>_<nonce>`.
pub open spec fn temp_path_of(root: Seq<char>, pid: u32, nonce: u64) -> Seq<char> {
    root + seq!['/', 't', 'm', 'p', '_', 'o', 'b', 'j', '_'] + decimal_text(pid as nat) + seq![
        '_',
    ] + decimal_text(nonce as nat)
}

/// A store of objects under one directory.
pub struct ObjectStore {
    /// The directory that holds the objects.
    pub root: String,
}

/// Where a repository keeps its parts, and what its head file starts out as.
pub struct InitPlan {
    /// The directories to create, parents first: the repository's own, the one
    /// for objects, the one for references.
    pub dirs: Vec<String>,
    /// The head file.
    pub head_path: String,
    /// What to write into the head file: a reference to the default branch.
    pub head_content: String,
}

/// What the caller is to do to store an object: create `dir` if it is missing,
/// write `packed` to `temp_path`, and rename that file to `final_path`.
pub struct PutPlan {
    /// The object's hash.
    pub id: String,
    /// The directory of the final file.
    pub dir: String,
    /// The file to write first. No other writer uses this name.
    pub temp_path: String,
    /// The file that the object is stored as.
    pub final_path: String,
    /// The bytes of the file.
    pub packed: Vec<u8>,
}

/// How the caller's write and rename of a `PutPlan` went.
#[derive(Clone, Copy, Debug, PartialEq, Eq, Structural)]
pub enum Committed {
    /// The temporary file was renamed to the final path.
    Renamed,
    /// A file already stood at the final path. It holds the same object.
    AlreadyThere,
    /// Creating, writing or renaming failed.
    Failed,
}

/// The hash of some content and, where the content is to be stored, the plan.
pub struct Hashed {
    /// The content's hash.
    pub id: String,
    /// What to do to store the content; `None` for a dry run.
    pub plan: Option<PutPlan>,
}

/// What the caller found at the path that `plan_get` named.
pub enum Fetched {
    /// There is no file at the path.
    Missing,
    /// There is a file, but it could not be read.
    Unreadable,
    /// The bytes of the file.
    Found(Vec<u8>),
}

/// Appends one decimal digit, given as its ASCII byte, to `out`.
fn push_digit(out: &mut String, b: u8)
    requires
        48 <= b <= 57,
    ensures
        final(out)@ == old(out)@.push(b as char),
{
    proof {
        reveal_strlit("0");
        reveal_strlit("1");
        reveal_strlit("2");
        reveal_strlit("3");
        reveal_strlit("4");
        reveal_strlit("5");
        reveal_strlit("6");
        reveal_strlit("7");
        reveal_strlit("8");
        reveal_strlit("9");
    }
    if b == 48 {
        out.append("0");
    } else if b == 49 {
        out.append("1");
    } else if b == 50 {
        out.append("2");
    } else if b == 51 {
        out.append("3");
    } else if b == 52 {
        out.append("4");
    } else if b == 53 {
        out.append("5");
    } else if b == 54 {
        out.append("6");
    } else if b == 55 {
        out.append("7");
    } else if b == 56 {
        out.append("8");
    } else {
        out.append("9");
    }
    assert(final(out)@ =~= old(out)@.push(b as char));
}

/// Appends `n` in decimal digits to `out`.
fn push_number(out: &mut String, n: u64)
    ensures
        final(out)@ == old(out)@ + decimal_text(n as nat),
{
    let digits = write_size(n);
    proof {
        lemma_decimal_round_trip(n as nat);
    }
    let mut i: usize = 0;
    while i < digits.len()
        invariant
            0 <= i <= digits@.len(),
            digits@ == decimal(n as nat),
            all_digits(digits@),
            out@ == old(out)@ + decimal_text(n as nat).take(i as int),
        decreases digits@.len() - i,
    {
        let b = digits[i];
        assert(is_digit(digits@[i as int]));
        push_digit(out, b);
        proof {
            let text = decimal_text(n as nat);
            assert(text[i as int] == b as char);
            assert(text.take(i as int).push(b as char) =~= text.take(i + 1));
            assert(out@ =~= old(out)@ + text.take(i + 1));
        }
        i = i + 1;
    }
    proof {
        let text = decimal_text(n as nat);
        assert(text.take(i as int) =~= text);
    }
}

/// Whether `plan` is the plan to store `content` under `root` for the writer
/// that `pid` and `nonce` identify.
pub open spec fn is_plan_for(
    plan: PutPlan,
    root: Seq<char>,
    content: Seq<u8>,
    pid: u32,
    nonce: u64,
) -> bool {
    &&& plan.id@ == object_id(content)
    &&& is_object_hash(plan.id@)
    &&& plan.dir@ == fan_dir_of(root, plan.id@)
    &&& plan.final_path@ == path_of(root, plan.id@)
    &&& plan.temp_path@ == temp_path_of(root, pid, nonce)
    &&& inflated(plan.packed@) == object_bytes(content)
    &&& intact(plan.packed@)
}

/// What a fetch makes of the file at an object's path: nothing there is
/// `NotFound`; bytes there hold what their decompressed stream holds.
pub open spec fn stored_content(file: Option<Seq<u8>>) -> Result<Seq<u8>, StoreError> {
    match file {
        None => Err(StoreError::NotFound),
        Some(packed) => parse_object(inflated(packed)),
    }
}

/// Different numbers have different decimal texts.
pub proof fn lemma_decimal_text_injective(a: nat, b: nat)
    requires
        decimal_text(a) == decimal_text(b),
    ensures
        a == b,
{
    let da = decimal(a);
    let db = decimal(b);
    lemma_decimal_round_trip(a);
    lemma_decimal_round_trip(b);
    assert(da.len() == decimal_text(a).len());
    assert(db.len() == decimal_text(b).len());
    assert forall|i: int| 0 <= i < da.len() implies da[i] == db[i] by {
        assert(decimal_text(a)[i] == da[i] as char);
        assert(decimal_text(b)[i] == db[i] as char);
        assert(is_digit(da[i]) && is_digit(db[i]));
    }
    assert(da =~= db);
    assert(digits_value(da) == digits_value(db));
}

/// Writers that differ in process or in nonce have different temporary files,
/// so that none writes into, or renames, the file of another.
pub proof fn lemma_temp_paths_distinct(
    root: Seq<char>,
    pid_a: u32,
    nonce_a: u64,
    pid_b: u32,
    nonce_b: u64,
)
    requires
        temp_path_of(root, pid_a, nonce_a) == temp_path_of(root, pid_b, nonce_b),
    ensures
        pid_a == pid_b,
        nonce_a == nonce_b,
{
    let ta = temp_path_of(root, pid_a, nonce_a);
    let tb = temp_path_of(root, pid_b, nonce_b);
    let pa = decimal_text(pid_a as nat);
    let pb = decimal_text(pid_b as nat);
    let na = decimal_text(nonce_a as nat);
    let nb = decimal_text(nonce_b as nat);
    let start: int = root.len() as int + 9;
    lemma_decimal_round_trip(pid_a as nat);
    lemma_decimal_round_trip(pid_b as nat);
    assert(ta.len() == start + pa.len() + 1 + na.len());
    assert(tb.len() == start + pb.len() + 1 + nb.len());
    assert forall|i: int| 0 <= i < pa.len() implies ta[start + i] == pa[i] && pa[i] != '_' by {
        assert(is_digit(decimal(pid_a as nat)[i]));
    }
    assert forall|i: int| 0 <= i < pb.len() implies tb[start + i] == pb[i] && pb[i] != '_' by {
        assert(is_digit(decimal(pid_b as nat)[i]));
    }
    assert(ta[start + pa.len() as int] == '_');
    assert(tb[start + pb.len() as int] == '_');
    if pa.len() < pb.len() {
        assert(tb[start + pa.len() as int] == pb[pa.len() as int]);
    } else if pb.len() < pa.len() {
        assert(ta[start + pb.len() as int] == pa[pb.len() as int]);
    }
    assert(pa.len() == pb.len());
    assert(pa =~= pb);
    assert forall|i: int| 0 <= i < na.len() implies na[i] == nb[i] by {
        assert(ta[start + pa.len() + 1 + i] == na[i]);
        assert(tb[start + pb.len() + 1 + i] == nb[i]);
    }
    assert(na =~= nb);
    lemma_decimal_text_injective(pid_a as nat, pid_b as nat);
    lemma_decimal_text_injective(nonce_a as nat, nonce_b as nat);
}

/// A temporary file is never the file of an object: its name starts with a
/// letter that no hash holds.
pub proof fn lemma_temp_path_is_no_object(root: Seq<char>, pid: u32, nonce: u64, hash: Seq<char>)
    requires
        is_object_hash(hash),
    ensures
        temp_path_of(root, pid, nonce) != path_of(root, hash),
{
    let t = temp_path_of(root, pid, nonce);
    let p = path_of(root, hash);
    let n = root.len() as int;
    assert(t[n + 1] == 't');
    assert(p[n + 1] == hash.subrange(0, 2)[0]);
    assert(is_hex_char(hash[0]));
}

/// Different hashes have different paths under one root.
pub proof fn lemma_path_injective(root: Seq<char>, a: Seq<char>, b: Seq<char>)
    requires
        is_object_hash(a),
        is_object_hash(b),
        path_of(root, a) == path_of(root, b),
    ensures
        a == b,
{
    let pa = path_of(root, a);
    let pb = path_of(root, b);
    let n = root.len() as int;
    assert forall|i: int| 0 <= i < HASH_LEN implies a[i] == b[i] by {
        if i < 2 {
            assert(pa[n + 1 + i] == a.subrange(0, 2)[i]);
            assert(pb[n + 1 + i] == b.subrange(0, 2)[i]);
        } else {
            assert(pa[n + 2 + i] == a.subrange(2, HASH_LEN as int)[i - 2]);
            assert(pb[n + 2 + i] == b.subrange(2, HASH_LEN as int)[i - 2]);
        }
    }
    assert(a =~= b);
}

impl ObjectStore {
    /// A store under the directory `root`.
    pub fn new(root: &str) -> (store: ObjectStore)
        ensures
            store.root@ == root@,
    {
        ObjectStore { root: String::from_str(root) }
    }

    /// The file of the object `hash`.
    fn object_path(&self, hash: &str) -> (path: String)
        requires
            is_object_hash(hash@),
        ensures
            path@ == path_of(self.root@, hash@),
    {
        let mut path = self.fan_dir(hash);
        proof {
            reveal_strlit("/");
        }
        path.append("/");
        path.append(hash.substring_char(2, HASH_LEN));
        assert(path@ =~= path_of(self.root@, hash@));
        path
    }

    /// The directory of the object `hash`.
    fn fan_dir(&self, hash: &str) -> (dir: String)
        requires
            is_object_hash(hash@),
        ensures
            dir@ == fan_dir_of(self.root@, hash@),
    {
        let mut dir = self.root.clone();
        proof {
            reveal_strlit("/");
        }
        dir.append("/");
        dir.append(hash.substring_char(0, 2));
        assert(dir@ =~= fan_dir_of(self.root@, hash@));
        dir
    }

    /// The temporary file for the writer that `pid` and `nonce` identify: the
    /// process, and a number that the process uses once.
    pub fn temp_path(&self, pid: u32, nonce: u64) -> (path: String)
        ensures
            path@ == temp_path_of(self.root@, pid, nonce),
    {
        let mut path = self.root.clone();
        proof {
            reveal_strlit("/tmp_obj_");
            reveal_strlit("_");
        }
        path.append("/tmp_obj_");
        push_number(&mut path, pid as u64);
        path.append("_");
        push_number(&mut path, nonce);
        assert(path@ =~= temp_path_of(self.root@, pid, nonce));
        path
    }

    /// First step of a fetch: checks the hash and names the file to read.
    ///
    /// Nothing has touched the file system when a malformed hash is refused.
    pub fn plan_get(&self, hash: &str) -> (res: Result<String, StoreError>)
        ensures
            match res {
                Ok(path) => is_object_hash(hash@) && path@ == path_of(self.root@, hash@),
                Err(e) => e == StoreError::InvalidInput && !is_object_hash(hash@),
            },
    {
        if !check_object_hash(hash) {
            return Err(StoreError::InvalidInput);
        }
        Ok(self.object_path(hash))
    }

    /// Last step of a fetch: turns what was found at the path into the content.
    ///
    /// A missing file is `NotFound` and an unreadable one `IoFailure`. A file
    /// that was read is decoded, and the outcome agrees with what its
    /// decompressed stream holds: of an intact file it is exactly that.
    pub fn conclude_get(fetched: Fetched) -> (res: Result<Vec<u8>, StoreError>)
        ensures
            match fetched {
                Fetched::Missing => res == Err::<Vec<u8>, StoreError>(StoreError::NotFound),
                Fetched::Unreadable => res == Err::<Vec<u8>, StoreError>(StoreError::IoFailure),
                Fetched::Found(packed) => reading_agrees(
                    res,
                    stored_content(Some(packed@)),
                    intact(packed@),
                ),
            },
    {
        match fetched {
            Fetched::Missing => Err(StoreError::NotFound),
            Fetched::Unreadable => Err(StoreError::IoFailure),
            Fetched::Found(packed) => read_blob(packed.as_slice()),
        }
    }

    /// First step of a store, for an object that is packed already: says what
    /// to write where.
    ///
    /// The plan carries the object's hash and bytes as they are; the paths
    /// follow from the hash and from the writer's identity. An object whose
    /// hash has not the shape of one is refused with `InvalidInput`.
    pub fn plan_for(&self, object: PackedObject, pid: u32, nonce: u64) -> (res: Result<
        PutPlan,
        StoreError,
    >)
        ensures
            match res {
                Ok(plan) => {
                    &&& is_object_hash(object.id@)
                    &&& plan.id@ == object.id@
                    &&& plan.packed@ == object.packed@
                    &&& plan.dir@ == fan_dir_of(self.root@, plan.id@)
                    &&& plan.final_path@ == path_of(self.root@, plan.id@)
                    &&& plan.temp_path@ == temp_path_of(self.root@, pid, nonce)
                },
                Err(e) => e == StoreError::InvalidInput && !is_object_hash(object.id@),
            },
    {
        if !check_object_hash(object.id.as_str()) {
            return Err(StoreError::InvalidInput);
        }
        let dir = self.fan_dir(object.id.as_str());
        let final_path = self.object_path(object.id.as_str());
        let temp_path = self.temp_path(pid, nonce);
        Ok(PutPlan { id: object.id, dir, temp_path, final_path, packed: object.packed })
    }

    /// First step of a store: encodes `content` and says what to write where.
    ///
    /// The hash is that of the content's plain encoding, the paths follow from
    /// the hash and from the writer's identity, and the bytes to write are an
    /// intact stream that decodes to the plain encoding. It fails only where
    /// the codec refused a step on the way through the plain encoding.
    pub fn plan_put(&self, content: &[u8], pid: u32, nonce: u64) -> (res: Result<
        PutPlan,
        StoreError,
    >)
        ensures
            match res {
                Ok(plan) => is_plan_for(plan, self.root@, content@, pid, nonce),
                Err(e) => e == StoreError::IoFailure && refused_on(object_bytes(content@)),
            },
    {
        let object = match write_blob(content) {
            Ok(object) => object,
            Err(e) => {
                return Err(e);
            },
        };
        match self.plan_for(object, pid, nonce) {
            Ok(plan) => Ok(plan),
            Err(_) => Err(StoreError::IoFailure),
        }
    }

    /// Last step of a store: the hash, once the file stands at its final path.
    ///
    /// A file that was already there counts as stored: the same hash names the
    /// same bytes. A failed write or rename is `IoFailure`; the temporary file
    /// may then be left behind, under a name that means nothing to a reader.
    pub fn conclude_put(plan: PutPlan, outcome: Committed) -> (res: Result<String, StoreError>)
        ensures
            match res {
                Ok(id) => outcome != Committed::Failed && id@ == plan.id@,
                Err(e) => outcome == Committed::Failed && e == StoreError::IoFailure,
            },
    {
        match outcome {
            Committed::Renamed => Ok(plan.id),
            Committed::AlreadyThere => Ok(plan.id),
            Committed::Failed => Err(StoreError::IoFailure),
        }
    }

    /// Hashes `content` as a blob and, if `write` is set, plans to store it.
    ///
    /// Either way the content is encoded in full; a dry run throws the encoding
    /// away and keeps the hash.
    pub fn hash_object(&self, content: &[u8], write: bool, pid: u32, nonce: u64) -> (res: Result<
        Hashed,
        StoreError,
    >)
        ensures
            match res {
                Ok(hashed) => {
                    &&& hashed.id@ == object_id(content@)
                    &&& is_object_hash(hashed.id@)
                    &&& match hashed.plan {
                        Some(plan) => write && is_plan_for(plan, self.root@, content@, pid, nonce),
                        None => !write,
                    }
                },
                Err(e) => e == StoreError::IoFailure && refused_on(object_bytes(content@)),
            },
    {
        let plan = match self.plan_put(content, pid, nonce) {
            Ok(plan) => plan,
            Err(e) => {
                return Err(e);
            },
        };
        if write {
            Ok(Hashed { id: plan.id.clone(), plan: Some(plan) })
        } else {
            Ok(Hashed { id: plan.id, plan: None })
        }
    }
}

/// What to create for an empty repository under `root`: the directories
/// `root`, `root/objects` and `root/refs`, and the file `root/HEAD`, which
/// refers to the default branch.
pub fn init_plan(root: &str) -> (plan: InitPlan)
    ensures
        plan.dirs@.len() == 3,
        plan.dirs@[0]@ == root@,
        plan.dirs@[1]@ == root@ + "/objects"@,
        plan.dirs@[2]@ == root@ + "/refs"@,
        plan.head_path@ == root@ + "/HEAD"@,
        plan.head_content@ == "ref: refs/heads/main\n"@,
{
    let mut dirs: Vec<String> = Vec::new();
    dirs.push(String::from_str(root));
    dirs.push(String::from_str(root).concat("/objects"));
    dirs.push(String::from_str(root).concat("/refs"));
    InitPlan {
        dirs,
        head_path: String::from_str(root).concat("/HEAD"),
        head_content: String::from_str("ref: refs/heads/main\n"),
    }
}

} // verus!
