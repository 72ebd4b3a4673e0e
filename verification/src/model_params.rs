//! The checkpoint store: named binary model blobs.
//!
//! A blob travels as a length-prefixed frame: eight little-endian bytes of
//! payload length, then the payload. The store-backed backend upserts the
//! frame under its key; a file-backed backend writes the same frame to
//! `<key>.bin`, handled by the host process. Loading checks the frame and
//! reports `DecodeError` for bytes no frame encodes.

use vstd::bytes::lemma_auto_spec_u64_to_from_le_bytes;
use vstd::bytes::spec_u64_from_le_bytes;
use vstd::bytes::spec_u64_to_le_bytes;
use vstd::bytes::u64_from_le_bytes;
use vstd::bytes::u64_to_le_bytes;
use vstd::prelude::*;

use crate::errors::DbError;
use crate::store::str_eq;

verus! {

/// A serialized model: the raw bytes of a trained model.
#[derive(Debug)]
pub struct SerializableModel {
    pub model: Vec<u8>,
}

/// The frame a payload is stored as: its length in eight little-endian
/// bytes, then the payload itself.
pub open spec fn encode_model_spec(m: Seq<u8>) -> Seq<u8> {
    spec_u64_to_le_bytes(m.len() as u64) + m
}

/// Frames a model for storage.
pub fn encode_model(m: &SerializableModel) -> (r: Vec<u8>)
    ensures
        r@ == encode_model_spec(m.model@),
{
    let mut out = u64_to_le_bytes(m.model.len() as u64);
    let mut i: usize = 0;
    while i < m.model.len()
        invariant
            i <= m.model.len(),
            out@ == spec_u64_to_le_bytes(m.model@.len() as u64) + m.model@.take(i as int),
        decreases m.model.len() - i,
    {
        out.push(m.model[i]);
        proof {
            assert(out@ =~= spec_u64_to_le_bytes(m.model@.len() as u64) + m.model@.take(i + 1));
        }
        i = i + 1;
    }
    proof {
        assert(m.model@.take(m.model@.len() as int) =~= m.model@);
    }
    out
}

/// Reads a stored frame back into a model. Exactly the byte sequences the
/// frame encoding produces decode; everything else is a `DecodeError`.
pub fn decode_model(bytes: &Vec<u8>) -> (r: Result<SerializableModel, DbError>)
    ensures
        match r {
            Ok(m) => bytes@ == encode_model_spec(m.model@),
            Err(e) => e == DbError::DecodeError && !(exists|s: Seq<u8>|
                bytes@ == encode_model_spec(s)),
        },
{
    proof {
        lemma_auto_spec_u64_to_from_le_bytes();
    }
    if bytes.len() < 8 {
        proof {
            assert forall|s: Seq<u8>| bytes@ != encode_model_spec(s) by {
                assert(encode_model_spec(s).len() >= 8);
            }
        }
        return Err(DbError::DecodeError);
    }
    let mut prefix: Vec<u8> = Vec::new();
    let mut i: usize = 0;
    while i < 8
        invariant
            i <= 8,
            bytes@.len() >= 8,
            prefix@ == bytes@.take(i as int),
        decreases 8 - i,
    {
        prefix.push(bytes[i]);
        proof {
            assert(prefix@ =~= bytes@.take(i + 1));
        }
        i = i + 1;
    }
    let n = u64_from_le_bytes(prefix.as_slice());
    if n != (bytes.len() - 8) as u64 {
        proof {
            lemma_auto_spec_u64_to_from_le_bytes();
            assert forall|s: Seq<u8>| bytes@ != encode_model_spec(s) by {
                if bytes@ == encode_model_spec(s) {
                    assert(bytes@.take(8) =~= spec_u64_to_le_bytes(s.len() as u64));
                    assert(prefix@ == spec_u64_to_le_bytes(s.len() as u64));
                    assert(n == s.len() as u64);
                    assert(s.len() == bytes@.len() - 8);
                }
            }
        }
        return Err(DbError::DecodeError);
    }
    let mut payload: Vec<u8> = Vec::new();
    let mut j: usize = 8;
    proof {
        assert(payload@ =~= bytes@.subrange(8, 8));
    }
    while j < bytes.len()
        invariant
            8 <= j <= bytes@.len(),
            payload@ == bytes@.subrange(8, j as int),
        decreases bytes@.len() - j,
    {
        payload.push(bytes[j]);
        proof {
            assert(payload@ =~= bytes@.subrange(8, j + 1));
        }
        j = j + 1;
    }
    proof {
        lemma_auto_spec_u64_to_from_le_bytes();
        assert(prefix@ == bytes@.take(8));
        assert(payload@.len() == bytes@.len() - 8);
        assert(n == payload@.len() as u64);
        assert(spec_u64_to_le_bytes(payload@.len() as u64) == spec_u64_to_le_bytes(
            spec_u64_from_le_bytes(prefix@),
        ));
        assert(spec_u64_to_le_bytes(payload@.len() as u64) == prefix@);
        assert(bytes@ =~= spec_u64_to_le_bytes(payload@.len() as u64) + payload@);
    }
    Ok(SerializableModel { model: payload })
}

/// One stored checkpoint: its key and its framed bytes.
pub struct CheckpointRecord {
    pub key: String,
    pub bytes: Vec<u8>,
}

/// The position of the first entry with the key, or -1.
pub open spec fn find_key(entries: Seq<(Seq<char>, Seq<u8>)>, k: Seq<char>) -> int
    decreases entries.len(),
{
    if entries.len() == 0 {
        -1
    } else if entries[0].0 == k {
        0
    } else {
        let r = find_key(entries.drop_first(), k);
        if r == -1 {
            -1
        } else {
            r + 1
        }
    }
}

/// `find_key` returns the position of the first entry with the key, and
/// -1 exactly when no entry carries it.
proof fn lemma_find_key_props(entries: Seq<(Seq<char>, Seq<u8>)>, k: Seq<char>)
    ensures
        -1 <= find_key(entries, k) < entries.len(),
        find_key(entries, k) >= 0 ==> entries[find_key(entries, k)].0 == k,
        find_key(entries, k) >= 0 ==> forall|j: int|
            0 <= j < find_key(entries, k) ==> (#[trigger] entries[j]).0 != k,
        find_key(entries, k) == -1 ==> forall|j: int|
            0 <= j < entries.len() ==> (#[trigger] entries[j]).0 != k,
    decreases entries.len(),
{
    if entries.len() == 0 {
    } else if entries[0].0 == k {
    } else {
        lemma_find_key_props(entries.drop_first(), k);
        assert forall|j: int| 1 <= j < entries.len() implies entries[j] == entries.drop_first()[j
            - 1] by {}
    }
}

/// The collection of stored checkpoints, keyed by name.
pub struct CheckpointStore {
    records: Vec<CheckpointRecord>,
}

impl CheckpointStore {
    /// The stored entries: each key with its framed bytes.
    pub closed spec fn entries(self) -> Seq<(Seq<char>, Seq<u8>)> {
        self.records@.map_values(|c: CheckpointRecord| (c.key@, c.bytes@))
    }

    /// An empty checkpoint collection.
    pub fn new() -> (r: Self)
        ensures
            r.entries() == Seq::<(Seq<char>, Seq<u8>)>::empty(),
    {
        let r = CheckpointStore { records: Vec::new() };
        proof {
            assert(r.entries() =~= Seq::<(Seq<char>, Seq<u8>)>::empty());
        }
        r
    }

    /// The position of the first entry with the key.
    fn find_index(&self, key: &str) -> (r: Option<usize>)
        ensures
            match r {
                Some(i) => i < self.entries().len() && find_key(self.entries(), key@) == i,
                None => find_key(self.entries(), key@) == -1,
            },
    {
        let ghost entries = self.entries();
        let mut i: usize = 0;
        while i < self.records.len()
            invariant
                i <= self.records.len(),
                entries == self.entries(),
                forall|j: int| 0 <= j < i ==> (#[trigger] entries[j]).0 != key@,
            decreases self.records.len() - i,
        {
            if str_eq(self.records[i].key.as_str(), key) {
                proof {
                    lemma_find_key_props(entries, key@);
                    assert(entries[i as int].0 == key@);
                    let f = find_key(entries, key@);
                    if f < i {
                        assert(entries[f].0 != key@);
                    }
                    if f > i || f == -1 {
                        assert(entries[i as int].0 != key@);
                    }
                }
                return Some(i);
            }
            i = i + 1;
        }
        proof {
            lemma_find_key_props(entries, key@);
            let f = find_key(entries, key@);
            if f >= 0 {
                assert(entries[f].0 != key@);
            }
        }
        None
    }

    /// Saves framed bytes under the key: an upsert, replacing the entry
    /// holding the key or appending a new one.
    pub fn save(&mut self, key: &str, data: Vec<u8>) -> (r: Result<(), DbError>)
        ensures
            r is Ok,
            ({
                let i = find_key(old(self).entries(), key@);
                if i >= 0 {
                    final(self).entries() == old(self).entries().update(i, (key@, data@))
                } else {
                    final(self).entries() == old(self).entries().push((key@, data@))
                }
            }),
    {
        let ghost before = self.entries();
        match self.find_index(key) {
            Some(i) => {
                self.records.set(i, CheckpointRecord { key: key.to_owned(), bytes: data });
                proof {
                    assert(self.entries() =~= before.update(i as int, (key@, data@)));
                }
                Ok(())
            },
            None => {
                self.records.push(CheckpointRecord { key: key.to_owned(), bytes: data });
                proof {
                    assert(self.entries() =~= before.push((key@, data@)));
                }
                Ok(())
            },
        }
    }

    /// The framed bytes stored under the key, or `NotFound`.
    pub fn load(&self, key: &str) -> (r: Result<Vec<u8>, DbError>)
        ensures
            ({
                let i = find_key(self.entries(), key@);
                match r {
                    Ok(b) => i >= 0 && b@ == self.entries()[i].1,
                    Err(e) => e == DbError::NotFound && i == -1,
                }
            }),
    {
        match self.find_index(key) {
            Some(i) => {
                let rec = &self.records[i];
                let mut out: Vec<u8> = Vec::new();
                let mut j: usize = 0;
                while j < rec.bytes.len()
                    invariant
                        j <= rec.bytes.len(),
                        out@ == rec.bytes@.take(j as int),
                    decreases rec.bytes.len() - j,
                {
                    out.push(rec.bytes[j]);
                    proof {
                        assert(out@ =~= rec.bytes@.take(j + 1));
                    }
                    j = j + 1;
                }
                proof {
                    assert(rec.bytes@.take(rec.bytes@.len() as int) =~= rec.bytes@);
                }
                Ok(out)
            },
            None => Err(DbError::NotFound),
        }
    }
}

impl Clone for ModelParams {
    fn clone(&self) -> (r: Self)
        ensures
            r.db_name_spec() == self.db_name_spec(),
            r.collection_name_spec() == self.collection_name_spec(),
            r.save_to_db_spec() == self.save_to_db_spec(),
            r.file_path_spec() == self.file_path_spec(),
    {
        ModelParams {
            db_name: self.db_name.clone(),
            collection_name: self.collection_name.clone(),
            save_to_db: self.save_to_db,
            file_path: match &self.file_path {
                Some(p) => Some(p.clone()),
                None => None,
            },
        }
    }
}

/// Configuration of the checkpoint store: the database name, the fixed
/// collection name, the backend selection, and the optional directory of
/// the file backend.
pub struct ModelParams {
    db_name: String,
    collection_name: String,
    save_to_db: bool,
    file_path: Option<String>,
}

impl ModelParams {
    /// The name of the logical database checkpoints go to.
    pub closed spec fn db_name_spec(self) -> Seq<char> {
        self.db_name@
    }

    /// The fixed name of the checkpoint collection.
    pub closed spec fn collection_name_spec(self) -> Seq<char> {
        self.collection_name@
    }

    /// Whether checkpoints go to the store rather than to files.
    pub closed spec fn save_to_db_spec(self) -> bool {
        self.save_to_db
    }

    /// The configured directory of the file backend.
    pub closed spec fn file_path_spec(self) -> Option<Seq<char>> {
        match self.file_path {
            Some(p) => Some(p@),
            None => None,
        }
    }

    /// Checkpoint configuration: the database name, the backend
    /// selection, and the optional file directory. The collection name is
    /// fixed.
    pub fn new(db_name: &str, save_to_db: bool, file_path: Option<String>) -> (r: Self)
        ensures
            r.db_name_spec() == db_name@,
            r.collection_name_spec() == "model_params"@,
            r.save_to_db_spec() == save_to_db,
            r.file_path_spec() == match file_path {
                Some(p) => Some(p@),
                None => None::<Seq<char>>,
            },
    {
        ModelParams {
            db_name: db_name.to_owned(),
            collection_name: "model_params".to_owned(),
            save_to_db,
            file_path,
        }
    }

    /// Whether checkpoints go to the store rather than to files; the host
    /// process dispatches on this.
    pub fn uses_db_backend(&self) -> (r: bool)
        ensures
            r == self.save_to_db_spec(),
    {
        self.save_to_db
    }

    /// The name of the logical database checkpoints go to.
    pub fn db_name(&self) -> (r: &str)
        ensures
            r@ == self.db_name_spec(),
    {
        self.db_name.as_str()
    }

    /// The fixed name of the checkpoint collection.
    pub fn collection_name(&self) -> (r: &str)
        ensures
            r@ == self.collection_name_spec(),
    {
        self.collection_name.as_str()
    }

    /// The configured directory of the file backend.
    pub fn file_dir(&self) -> (r: Option<&str>)
        ensures
            match r {
                Some(p) => self.file_path_spec() == Some(p@),
                None => self.file_path_spec() == None::<Seq<char>>,
            },
    {
        match &self.file_path {
            Some(p) => Some(p.as_str()),
            None => None,
        }
    }

    /// Frames the model and upserts it under the key.
    pub fn save_model_to_db(
        &self,
        store: &mut CheckpointStore,
        key: &str,
        model: &SerializableModel,
    ) -> (r: Result<(), DbError>)
        ensures
            r is Ok,
            ({
                let i = find_key(old(store).entries(), key@);
                let framed = encode_model_spec(model.model@);
                if i >= 0 {
                    final(store).entries() == old(store).entries().update(i, (key@, framed))
                } else {
                    final(store).entries() == old(store).entries().push((key@, framed))
                }
            }),
    {
        let framed = encode_model(model);
        store.save(key, framed)
    }

    /// Loads the bytes stored under the key and decodes the frame:
    /// `NotFound` without an entry, `DecodeError` for bytes no frame
    /// encodes.
    pub fn load_model_from_db(&self, store: &CheckpointStore, key: &str) -> (r: Result<
        SerializableModel,
        DbError,
    >)
        ensures
            ({
                let i = find_key(store.entries(), key@);
                match r {
                    Ok(m) => i >= 0 && store.entries()[i].1 == encode_model_spec(m.model@),
                    Err(e) => (e == DbError::NotFound && i == -1) || (e == DbError::DecodeError && i
                        >= 0 && !(exists|s: Seq<u8>| store.entries()[i].1 == encode_model_spec(s))),
                }
            }),
    {
        let bytes = match store.load(key) {
            Ok(b) => b,
            Err(_) => {
                return Err(DbError::NotFound);
            },
        };
        decode_model(&bytes)
    }
}

} // verus!
