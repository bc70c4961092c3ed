//! The encrypted record store: one sealed blob per owner, written only
//! through encrypt-before-persist and read only through decrypt-after-fetch.
//! Plaintext never crosses the persistence boundary; a blob that fails its
//! integrity check is reported as corruption, never returned as content.

use vstd::prelude::*;
use crate::cipher;
use crate::protocol::ErrorKind;

verus! {

/// One persisted record: an owner identity and its sealed blob.
pub struct RecordEntry {
    pub owner: String,
    pub blob: Vec<u8>,
}

/// No two records share an owner, so the blob map below is well defined.
pub open spec fn distinct_owners(s: Seq<RecordEntry>) -> bool {
    forall|i: int, j: int| 0 <= i < j < s.len() ==> s[i].owner@ != s[j].owner@
}

/// The owner-to-blob map a sequence of records denotes.
pub open spec fn seq_blobs(s: Seq<RecordEntry>) -> Map<Seq<char>, Seq<u8>> {
    Map::new(
        |o: Seq<char>| exists|i: int| 0 <= i < s.len() && s[i].owner@ == o,
        |o: Seq<char>|
            {
                let i = choose|i: int| 0 <= i < s.len() && s[i].owner@ == o;
                s[i].blob@
            },
    )
}

proof fn lemma_seq_blobs_at(s: Seq<RecordEntry>, i: int)
    requires
        distinct_owners(s),
        0 <= i < s.len(),
    ensures
        seq_blobs(s).contains_key(s[i].owner@),
        seq_blobs(s)[s[i].owner@] == s[i].blob@,
{
    let o = s[i].owner@;
    assert(seq_blobs(s).contains_key(o));
    let j = choose|j: int| 0 <= j < s.len() && s[j].owner@ == o;
    if i < j {
        assert(s[i].owner@ != s[j].owner@);
    } else if j < i {
        assert(s[j].owner@ != s[i].owner@);
    }
}

proof fn lemma_seq_blobs_absent(s: Seq<RecordEntry>, o: Seq<char>)
    requires
        forall|i: int| 0 <= i < s.len() ==> s[i].owner@ != o,
    ensures
        !seq_blobs(s).contains_key(o),
{
}

proof fn lemma_seq_blobs_push(s: Seq<RecordEntry>, x: RecordEntry)
    requires
        distinct_owners(s),
        forall|i: int| 0 <= i < s.len() ==> s[i].owner@ != x.owner@,
    ensures
        distinct_owners(s.push(x)),
        seq_blobs(s.push(x)) =~= seq_blobs(s).insert(x.owner@, x.blob@),
{
    let p = s.push(x);
    assert forall|i: int, j: int| 0 <= i < j < p.len() implies p[i].owner@ != p[j].owner@ by {
        if j < s.len() {
            assert(s[i].owner@ != s[j].owner@);
        } else {
            assert(p[j] == x);
            assert(s[i].owner@ != x.owner@);
        }
    }
    assert forall|o: Seq<char>| #[trigger] seq_blobs(p).contains_key(o) == seq_blobs(s).insert(
        x.owner@,
        x.blob@,
    ).contains_key(o) by {
        if o == x.owner@ {
            assert(p[s.len() as int].owner@ == o);
        } else {
            if seq_blobs(p).contains_key(o) {
                let i = choose|i: int| 0 <= i < p.len() && p[i].owner@ == o;
                assert(i < s.len());
                assert(s[i].owner@ == o);
            }
            if seq_blobs(s).contains_key(o) {
                let i = choose|i: int| 0 <= i < s.len() && s[i].owner@ == o;
                assert(p[i].owner@ == o);
            }
        }
    }
    assert forall|o: Seq<char>| seq_blobs(p).contains_key(o) implies seq_blobs(p)[o] == seq_blobs(
        s,
    ).insert(x.owner@, x.blob@)[o] by {
        let i = choose|i: int| 0 <= i < p.len() && p[i].owner@ == o;
        if o == x.owner@ {
            assert(i == s.len());
        } else {
            assert(i < s.len());
            lemma_seq_blobs_at(s, i);
            let j = choose|j: int| 0 <= j < s.len() && s[j].owner@ == o;
            if i < j {
                assert(s[i].owner@ != s[j].owner@);
            } else if j < i {
                assert(s[j].owner@ != s[i].owner@);
            }
        }
    }
}

proof fn lemma_seq_blobs_remove(s: Seq<RecordEntry>, i: int)
    requires
        distinct_owners(s),
        0 <= i < s.len(),
    ensures
        distinct_owners(s.remove(i)),
        seq_blobs(s.remove(i)) =~= seq_blobs(s).remove(s[i].owner@),
        forall|k: int| 0 <= k < s.remove(i).len() ==> s.remove(i)[k].owner@ != s[i].owner@,
{
    let o = s[i].owner@;
    let r = s.remove(i);
    assert forall|a: int, b: int| 0 <= a < b < r.len() implies r[a].owner@ != r[b].owner@ by {
        let a0 = if a < i {
            a
        } else {
            a + 1
        };
        let b0 = if b < i {
            b
        } else {
            b + 1
        };
        assert(r[a] == s[a0]);
        assert(r[b] == s[b0]);
        assert(s[a0].owner@ != s[b0].owner@);
    }
    assert forall|k: int| 0 <= k < r.len() implies r[k].owner@ != o by {
        let k0 = if k < i {
            k
        } else {
            k + 1
        };
        assert(r[k] == s[k0]);
        if k0 < i {
            assert(s[k0].owner@ != s[i].owner@);
        } else {
            assert(s[i].owner@ != s[k0].owner@);
        }
    }
    assert forall|u: Seq<char>| #[trigger] seq_blobs(r).contains_key(u) == seq_blobs(s).remove(
        o,
    ).contains_key(u) by {
        if seq_blobs(r).contains_key(u) {
            let a = choose|a: int| 0 <= a < r.len() && r[a].owner@ == u;
            let a0 = if a < i {
                a
            } else {
                a + 1
            };
            assert(r[a] == s[a0]);
            assert(s[a0].owner@ == u);
            assert(u != o);
        }
        if seq_blobs(s).remove(o).contains_key(u) {
            let a0 = choose|a0: int| 0 <= a0 < s.len() && s[a0].owner@ == u;
            if a0 < i {
                assert(r[a0] == s[a0]);
                assert(r[a0].owner@ == u);
            } else if a0 > i {
                assert(r[a0 - 1] == s[a0]);
                assert(r[a0 - 1].owner@ == u);
            }
        }
    }
    assert forall|u: Seq<char>| seq_blobs(r).contains_key(u) implies seq_blobs(r)[u] == seq_blobs(
        s,
    ).remove(o)[u] by {
        let a = choose|a: int| 0 <= a < r.len() && r[a].owner@ == u;
        let a0 = if a < i {
            a
        } else {
            a + 1
        };
        assert(r[a] == s[a0]);
        lemma_seq_blobs_at(s, a0);
        let b = choose|b: int| 0 <= b < s.len() && s[b].owner@ == u;
        if a0 < b {
            assert(s[a0].owner@ != s[b].owner@);
        } else if b < a0 {
            assert(s[b].owner@ != s[a0].owner@);
        }
    }
}

/// Copies a byte vector.
pub(crate) fn copy_bytes(v: &Vec<u8>) -> (out: Vec<u8>)
    ensures
        out@ =~= v@,
{
    let mut out: Vec<u8> = Vec::new();
    let n = v.len();
    let mut i: usize = 0;
    while i < n
        invariant
            i <= n,
            n == v@.len(),
            out@ =~= v@.take(i as int),
        decreases n - i,
    {
        out.push(v[i]);
        assert(out@ =~= v@.take(i + 1));
        i = i + 1;
    }
    assert(v@.take(n as int) =~= v@);
    out
}

/// Wraps the key-value persistence shape with mandatory sealing: blobs are
/// written only sealed and content is recovered only by opening them.
pub struct EncryptedStore {
    key: u64,
    records: Vec<RecordEntry>,
}

impl EncryptedStore {
    /// Records never share an owner.
    pub closed spec fn wf(&self) -> bool {
        distinct_owners(self.records@)
    }

    /// The process-wide encryption key the store was configured with.
    pub closed spec fn key(&self) -> u64 {
        self.key
    }

    /// The persisted blobs, keyed by owner identity.
    pub closed spec fn blobs(&self) -> Map<Seq<char>, Seq<u8>> {
        seq_blobs(self.records@)
    }

    pub fn new(key: u64) -> (r: Self)
        ensures
            r.wf(),
            r.key() == key,
            r.blobs() =~= Map::<Seq<char>, Seq<u8>>::empty(),
    {
        let r = EncryptedStore { key, records: Vec::new() };
        proof {
            assert forall|o: Seq<char>| !r.blobs().contains_key(o) by {
                lemma_seq_blobs_absent(r.records@, o);
            }
        }
        r
    }

    /// Stores a raw blob for `owner`, replacing any prior one. This is the
    /// persistence face of the store: what tampering or reloading touches.
    pub fn put_blob(&mut self, owner: &String, blob: Vec<u8>)
        requires
            old(self).wf(),
        ensures
            final(self).wf(),
            final(self).key() == old(self).key(),
            final(self).blobs() =~= old(self).blobs().insert(owner@, blob@),
    {
        let ghost pre = self.records@;
        let n = self.records.len();
        let mut i: usize = 0;
        let mut found = false;
        while i < n && !found
            invariant
                i <= n,
                n == self.records@.len(),
                self.records@ == pre,
                self.key == old(self).key,
                found ==> i < n && self.records@[i as int].owner@ == owner@,
                !found ==> forall|k: int| 0 <= k < i ==> self.records@[k].owner@ != owner@,
            decreases n - i + (if found {
                0int
            } else {
                1int
            }),
        {
            if self.records[i].owner == *owner {
                found = true;
            } else {
                i = i + 1;
            }
        }
        if found {
            proof {
                lemma_seq_blobs_remove(pre, i as int);
                lemma_seq_blobs_at(pre, i as int);
            }
            self.records.remove(i);
            let ghost mid = self.records@;
            let entry = RecordEntry { owner: owner.clone(), blob };
            proof {
                lemma_seq_blobs_push(mid, entry);
            }
            self.records.push(entry);
            proof {
                assert(self.blobs() =~= old(self).blobs().insert(owner@, blob@));
            }
        } else {
            let entry = RecordEntry { owner: owner.clone(), blob };
            proof {
                lemma_seq_blobs_push(pre, entry);
            }
            self.records.push(entry);
        }
    }

    /// Fetches the raw blob stored for `owner`, if any.
    pub fn get_blob(&self, owner: &String) -> (r: Option<Vec<u8>>)
        requires
            self.wf(),
        ensures
            match r {
                Some(b) => self.blobs().contains_key(owner@) && b@ == self.blobs()[owner@],
                None => !self.blobs().contains_key(owner@),
            },
    {
        let n = self.records.len();
        let mut i: usize = 0;
        while i < n
            invariant
                self.wf(),
                i <= n,
                n == self.records@.len(),
                forall|k: int| 0 <= k < i ==> self.records@[k].owner@ != owner@,
            decreases n - i,
        {
            if self.records[i].owner == *owner {
                proof {
                    lemma_seq_blobs_at(self.records@, i as int);
                }
                return Some(copy_bytes(&self.records[i].blob));
            }
            i = i + 1;
        }
        proof {
            lemma_seq_blobs_absent(self.records@, owner@);
        }
        None
    }

    /// Whether `owner` currently has a stored record.
    pub fn contains(&self, owner: &String) -> (r: bool)
        requires
            self.wf(),
        ensures
            r == self.blobs().contains_key(owner@),
    {
        let n = self.records.len();
        let mut i: usize = 0;
        while i < n
            invariant
                self.wf(),
                i <= n,
                n == self.records@.len(),
                forall|k: int| 0 <= k < i ==> self.records@[k].owner@ != owner@,
            decreases n - i,
        {
            if self.records[i].owner == *owner {
                proof {
                    lemma_seq_blobs_at(self.records@, i as int);
                }
                return true;
            }
            i = i + 1;
        }
        proof {
            lemma_seq_blobs_absent(self.records@, owner@);
        }
        false
    }

    /// Seals `content` under the store key and persists it for `owner`,
    /// inserting if absent and replacing if present.
    pub fn upsert(&mut self, owner: &String, content: &Vec<u8>)
        requires
            old(self).wf(),
        ensures
            final(self).wf(),
            final(self).key() == old(self).key(),
            final(self).blobs() =~= old(self).blobs().insert(
                owner@,
                cipher::seal_spec(old(self).key(), content@),
            ),
    {
        let sealed = cipher::seal(self.key, content);
        self.put_blob(owner, sealed);
    }

    /// Fetches and opens the blob for `owner`: distinguishes a missing
    /// record from a blob that fails its integrity check, and otherwise
    /// returns the original content.
    pub fn get(&self, owner: &String) -> (r: Result<Vec<u8>, ErrorKind>)
        requires
            self.wf(),
        ensures
            match r {
                Ok(content) => self.blobs().contains_key(owner@) && cipher::open_spec(
                    self.key(),
                    self.blobs()[owner@],
                ) == Some(content@),
                Err(k) => (k == ErrorKind::NoRecord && !self.blobs().contains_key(owner@)) || (k
                    == ErrorKind::DecryptionFailure && self.blobs().contains_key(owner@)
                    && cipher::open_spec(self.key(), self.blobs()[owner@]) == None::<Seq<u8>>),
            },
{
        match self.get_blob(owner) {
            None => Err(ErrorKind::NoRecord),
            Some(blob) => {
                match cipher::open(self.key, &blob) {
                    Some(content) => Ok(content),
                    None => Err(ErrorKind::DecryptionFailure),
                }
            },
        }
    }
}

/// Round trip at the store level: after an upsert for `owner`, opening the
/// stored blob under the same key returns exactly the upserted content.
pub proof fn lemma_upsert_then_get(
    blobs: Map<Seq<char>, Seq<u8>>,
    key: u64,
    owner: Seq<char>,
    content: Seq<u8>,
)
    ensures
        blobs.insert(owner, cipher::seal_spec(key, content)).contains_key(owner),
        cipher::open_spec(key, blobs.insert(owner, cipher::seal_spec(key, content))[owner])
            == Some(content),
{
    cipher::lemma_seal_open_roundtrip(key, content);
}

} // verus!
