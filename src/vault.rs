//! The vault: its entries in memory, and how it is saved to and loaded from
//! the bytes of a file.
use crate::codec::copy_range;
use crate::crypto::{
    aes256gcm_open, aes256gcm_seal, decrypt_data, derive_key, encrypt_data, generate_nonce,
    generate_salt, key_for, kdf_usable, wipe, Key, A_MAX, KEY_SIZE, P_MAX,
};
use crate::entries::{
    decode_entries, encode_entries, entries_json, entries_of_json, find, ids_unique, lemma_pairs_map_at, lemma_pairs_map_finite, lemma_pairs_push,
    lemma_pairs_remove, lemma_pairs_update, pairs_map,
};
use crate::error::ClipassError;
use crate::header::{
    header_bytes, header_of, lemma_header_round_trip, HeaderView, KdfParams,
    VaultHeader, HEADER_SIZE, NONCE_SIZE, SALT_SIZE,
};
use vstd::prelude::*;
use vstd::string::{StringExecFns, StringSliceAdditionalSpecFns};

verus! {

/// A vault: the entries, the costs and salt that its key was derived with,
/// the key itself, and its timestamps in unix seconds.
pub struct Vault {
    entries: Vec<(String, String)>,
    kdf: KdfParams,
    updated: bool,
    created_at: u64,
    modified_at: u64,
    salt: Vec<u8>,
    key: Key,
}

/// A vault as plain values.
pub struct VaultView {
    /// The value of each entry, by id.
    pub entries: Map<Seq<char>, Seq<char>>,
    pub kdf: KdfParams,
    /// The entries changed since the vault was created, loaded or saved.
    pub updated: bool,
    pub created_at: u64,
    pub modified_at: u64,
    pub salt: Seq<u8>,
    pub key: Seq<u8>,
}

impl View for Vault {
    type V = VaultView;

    closed spec fn view(&self) -> VaultView {
        VaultView {
            entries: pairs_map(self.entries@),
            kdf: self.kdf,
            updated: self.updated,
            created_at: self.created_at,
            modified_at: self.modified_at,
            salt: self.salt@,
            key: self.key@,
        }
    }
}

/// The modification time that a save at `now` records: `now` where the
/// entries changed, else the one recorded before.
pub open spec fn saved_modified_at(v: VaultView, now: u64) -> u64 {
    if v.updated {
        now
    } else {
        v.modified_at
    }
}

/// The header that a save at `now` with `nonce` writes.
pub open spec fn saved_header(v: VaultView, now: u64, nonce: Seq<u8>) -> HeaderView {
    HeaderView {
        created_at: v.created_at,
        modified_at: saved_modified_at(v, now),
        kdf: v.kdf,
        salt: v.salt,
        nonce,
    }
}

/// The file that a save at `now` with `nonce` writes: the header, then the
/// encryption of the entries' JSON with the header as associated data.
pub open spec fn file_image(v: VaultView, now: u64, nonce: Seq<u8>) -> Seq<u8> {
    let hb = header_bytes(saved_header(v, now, nonce));
    hb + aes256gcm_seal(v.key, nonce, entries_json(v.entries), hb)
}

/// The vault after a save at `now`.
pub open spec fn after_save(v: VaultView, now: u64) -> VaultView {
    VaultView { updated: false, modified_at: saved_modified_at(v, now), ..v }
}

/// `v` is a vault whose key `password` gives and whose entries can be sealed.
pub open spec fn sealable_with(password: Seq<u8>, v: VaultView) -> bool {
    &&& v.salt.len() == SALT_SIZE
    &&& v.entries.dom().finite()
    &&& kdf_usable(password, v.kdf)
    &&& v.key == key_for(password, v.salt, v.kdf)
    &&& entries_json(v.entries).len() <= P_MAX
}

/// The key that `password` gives with the salt and costs of header `h`.
pub open spec fn file_key(password: Seq<u8>, h: HeaderView) -> Seq<u8> {
    key_for(password, h.salt, h.kdf)
}

/// The plaintext of the file `data` with header `h`, where its tag verifies
/// under the key that `password` gives.
pub open spec fn file_plaintext(password: Seq<u8>, data: Seq<u8>, h: HeaderView) -> Option<Seq<u8>> {
    aes256gcm_open(
        file_key(password, h),
        h.nonce,
        data.subrange(HEADER_SIZE as int, data.len() as int),
        data.subrange(0, HEADER_SIZE as int),
    )
}

/// The vault that loading a file with header `h` and entries `m` gives.
pub open spec fn loaded_view(password: Seq<u8>, h: HeaderView, m: Map<Seq<char>, Seq<char>>) -> VaultView {
    VaultView {
        entries: m,
        kdf: h.kdf,
        updated: false,
        created_at: h.created_at,
        modified_at: h.modified_at,
        salt: h.salt,
        key: file_key(password, h),
    }
}

/// `data` is what a save of `v` at `now` with `nonce` wrote, and `password`
/// gives the key of `v`.
pub open spec fn saved_from(password: Seq<u8>, data: Seq<u8>, v: VaultView, now: u64, nonce: Seq<u8>) -> bool {
    &&& sealable_with(password, v)
    &&& nonce.len() == NONCE_SIZE
    &&& data == file_image(v, now, nonce)
}

/// How a saved file splits into its header and its sealed entries.
pub proof fn lemma_file_image_parts(v: VaultView, now: u64, nonce: Seq<u8>)
    requires
        v.salt.len() == SALT_SIZE,
        nonce.len() == NONCE_SIZE,
    ensures
        header_of(file_image(v, now, nonce)) == Some(saved_header(v, now, nonce)),
        file_image(v, now, nonce).len() >= HEADER_SIZE,
        file_image(v, now, nonce).subrange(0, HEADER_SIZE as int) == header_bytes(
            saved_header(v, now, nonce),
        ),
        file_image(v, now, nonce).subrange(
            HEADER_SIZE as int,
            file_image(v, now, nonce).len() as int,
        ) == aes256gcm_seal(
            v.key,
            nonce,
            entries_json(v.entries),
            header_bytes(saved_header(v, now, nonce)),
        ),
{
    let h = saved_header(v, now, nonce);
    let hb = header_bytes(h);
    let ct = aes256gcm_seal(v.key, nonce, entries_json(v.entries), hb);
    lemma_header_round_trip(h, ct);
    assert((hb + ct).subrange(0, HEADER_SIZE as int) =~= hb);
    assert((hb + ct).subrange(HEADER_SIZE as int, (hb + ct).len() as int) =~= ct);
}

/// Saving a vault whose entries did not change since it was created, loaded
/// or saved keeps its modification time; so saving twice without a change in
/// between records the same modification time both times.
pub proof fn law_save_without_change_keeps_modified_at(v: VaultView, t1: u64, t2: u64)
    ensures
        !v.updated ==> saved_modified_at(v, t1) == v.modified_at,
        saved_modified_at(after_save(v, t1), t2) == saved_modified_at(v, t1),
        after_save(after_save(v, t1), t2) == after_save(v, t1),
{
}

/// Saving after a change records the time of the save, which is not earlier
/// than the modification time recorded before where the clock did not go back.
pub proof fn law_save_after_change_advances_modified_at(v: VaultView, now: u64)
    requires
        v.updated,
        now >= v.modified_at,
    ensures
        saved_modified_at(v, now) == now,
        saved_modified_at(v, now) >= v.modified_at,
{
}

fn io_error(msg: &str) -> (r: ClipassError)
    ensures
        r is Io,
{
    ClipassError::Io(String::from_str(msg))
}

impl Vault {
    /// The entries have distinct ids, and the salt and key their lengths.
    pub closed spec fn wf(&self) -> bool {
        &&& ids_unique(self.entries@)
        &&& self.salt@.len() == SALT_SIZE
        &&& self.key@.len() == KEY_SIZE
    }

    /// What holds of the view of a well-formed vault.
    pub proof fn lemma_wf_view(&self)
        requires
            self.wf(),
        ensures
            self@.salt.len() == SALT_SIZE,
            self@.key.len() == KEY_SIZE,
            self@.entries.dom().finite(),
    {
        lemma_pairs_map_finite(self.entries@);
    }

    /// A new empty vault created at `now`, with the key that `password`, `salt`
    /// and the costs `kdf` give. Fails with `CryptoError` where Argon2 refuses
    /// the costs or the password's length.
    pub fn new(password: &str, kdf: KdfParams, salt: Vec<u8>, now: u64) -> (r: Result<Vault, ClipassError>)
        requires
            salt@.len() == SALT_SIZE,
        ensures
            r is Ok <==> kdf_usable(password.spec_bytes(), kdf),
            r matches Ok(v) ==> v.wf() && v@ == (VaultView {
                entries: Map::empty(),
                kdf,
                updated: false,
                created_at: now,
                modified_at: now,
                salt: salt@,
                key: key_for(password.spec_bytes(), salt@, kdf),
            }),
            r matches Err(e) ==> e is CryptoError,
    {
        let key = match derive_key(password, &salt, kdf) {
            Ok(k) => k,
            Err(e) => return Err(e),
        };
        let v = Vault { entries: Vec::new(), kdf, updated: false, created_at: now, modified_at: now, salt, key };
        assert(pairs_map(v.entries@) =~= Map::empty());
        Ok(v)
    }

    /// A new empty vault created at `now` for `password`, with a fresh random
    /// salt and the default costs. Fails with `CryptoError` only where the
    /// password is longer than Argon2 accepts.
    pub fn new_empty(password: &str, now: u64) -> (r: Result<Vault, ClipassError>)
        ensures
            r is Ok <==> password.spec_bytes().len() <= 0xffff_ffff,
            r matches Ok(v) ==> v.wf() && v@.entries == Map::<Seq<char>, Seq<char>>::empty()
                && v@.kdf == (KdfParams { memory_cost: 65536, time_cost: 3, parallelism: 4 })
                && !v@.updated && v@.created_at == now && v@.modified_at == now
                && v@.salt.len() == SALT_SIZE && v@.key == key_for(password.spec_bytes(), v@.salt, v@.kdf),
            r matches Err(e) ==> e is CryptoError,
    {
        let salt = generate_salt();
        Vault::new(password, KdfParams::default(), salt, now)
    }

    /// Whether an entry has the id `key`.
    pub fn contains_key(&self, key: &str) -> (r: bool)
        requires
            self.wf(),
        ensures
            r == self@.entries.contains_key(key@),
    {
        find(&self.entries, key).is_some()
    }

    /// The value of the entry `key`. Fails with `NotFound` where there is none.
    pub fn get_value(&self, key: &str) -> (r: Result<&String, ClipassError>)
        requires
            self.wf(),
        ensures
            self@.entries.contains_key(key@) ==> (r matches Ok(s) && s@ == self@.entries[key@]),
            !self@.entries.contains_key(key@) ==> (r matches Err(e) && e matches ClipassError::NotFound(id) && id@ == key@),
    {
        match find(&self.entries, key) {
            Some(i) => {
                proof {
                    lemma_pairs_map_at(self.entries@, i as int);
                }
                Ok(&self.entries[i].1)
            },
            None => Err(ClipassError::NotFound(String::from_str(key))),
        }
    }

    /// All the entries, as pairs of an id and a value with distinct ids.
    pub fn get_all(&self) -> (r: &Vec<(String, String)>)
        requires
            self.wf(),
        ensures
            ids_unique(r@),
            pairs_map(r@) == self@.entries,
    {
        &self.entries
    }

    /// The ids of the entries, each once; the values are not exposed.
    pub fn list_ids(&self) -> (r: Vec<String>)
        requires
            self.wf(),
        ensures
            forall|i: int| 0 <= i < r@.len() ==> self@.entries.contains_key(#[trigger] r@[i]@),
            forall|k: Seq<char>| #[trigger] self@.entries.contains_key(k) ==> exists|i: int|
                0 <= i < r@.len() && r@[i]@ == k,
            forall|i: int, j: int| 0 <= i < r@.len() && 0 <= j < r@.len() && i != j ==> #[trigger] r@[i]@ != #[trigger] r@[j]@,
    {
        let mut ids: Vec<String> = Vec::new();
        let mut i: usize = 0;
        while i < self.entries.len()
            invariant
                self.wf(),
                i <= self.entries@.len(),
                ids@.len() == i,
                forall|j: int| 0 <= j < i ==> #[trigger] ids@[j]@ == self.entries@[j].0@,
            decreases self.entries@.len() - i,
        {
            ids.push(self.entries[i].0.clone());
            i += 1;
        }
        proof {
            assert forall|j: int| 0 <= j < ids@.len() implies self@.entries.contains_key(#[trigger] ids@[j]@) by {
                lemma_pairs_map_at(self.entries@, j);
            }
            assert forall|k: Seq<char>| #[trigger] self@.entries.contains_key(k) implies exists|j: int|
                0 <= j < ids@.len() && ids@[j]@ == k by {
                let j = choose|j: int| 0 <= j < self.entries@.len() && #[trigger] self.entries@[j].0@ == k;
                assert(ids@[j]@ == k);
            }
        }
        ids
    }

    /// The bytes of the file that saves this vault at `now`, with `nonce`:
    /// the header, then the AES-256-GCM encryption of the entries' JSON with
    /// the header as associated data. The modification time becomes `now`
    /// where the entries changed, and the vault counts as unchanged after.
    /// Fails with `CryptoError`, and leaves the vault as it was, only where
    /// the JSON is over 2^36 bytes.
    pub fn crypt_to_bytes_with_nonce(&mut self, now: u64, nonce: &Vec<u8>) -> (r: Result<Vec<u8>, ClipassError>)
        requires
            old(self).wf(),
            nonce@.len() == NONCE_SIZE,
        ensures
            final(self).wf(),
            r is Ok <==> entries_json(old(self)@.entries).len() <= P_MAX,
            r matches Ok(b) ==> b@ == file_image(old(self)@, now, nonce@),
            r is Ok ==> final(self)@ == after_save(old(self)@, now),
            r matches Err(e) ==> e is CryptoError,
            r is Err ==> final(self)@ == old(self)@,
    {
        let mut plaintext = encode_entries(&self.entries);
        let modified_at = if self.updated {
            now
        } else {
            self.modified_at
        };
        let header = VaultHeader::new(self.salt.clone(), nonce.clone(), self.created_at, modified_at, self.kdf);
        assert(header@ == saved_header(self@, now, nonce@));
        let header_bytes = header.serialize();
        let sealed = encrypt_data(&self.key, nonce, &plaintext, &header_bytes);
        wipe(&mut plaintext);
        let ciphertext = match sealed {
            Ok(c) => c,
            Err(e) => return Err(e),
        };
        let mut out = header_bytes;
        crate::codec::push_all(&mut out, &ciphertext);
        self.modified_at = modified_at;
        self.updated = false;
        Ok(out)
    }

    /// The bytes of the file that saves this vault at `now`, with a fresh
    /// random nonce; as `crypt_to_bytes_with_nonce` otherwise.
    pub fn crypt_to_bytes(&mut self, now: u64) -> (r: Result<Vec<u8>, ClipassError>)
        requires
            old(self).wf(),
        ensures
            final(self).wf(),
            r is Ok <==> entries_json(old(self)@.entries).len() <= P_MAX,
            r matches Ok(b) ==> exists|nonce: Seq<u8>| nonce.len() == NONCE_SIZE && b@ == file_image(old(self)@, now, nonce),
            r is Ok ==> final(self)@ == after_save(old(self)@, now),
            r matches Err(e) ==> e is CryptoError,
            r is Err ==> final(self)@ == old(self)@,
    {
        let nonce = generate_nonce();
        self.crypt_to_bytes_with_nonce(now, &nonce)
    }

    /// Loads the vault that the file `data` holds, with `password`.
    ///
    /// Fails with `Io` where `data` is shorter than a header, with
    /// `HeaderError` where the header is not one of this format, with
    /// `CryptoError` where Argon2 refuses the header's costs or the tag does
    /// not verify (a wrong password and altered bytes are not told apart), and
    /// with `SerdeError` where the plaintext is not a JSON object of strings.
    /// What a save wrote loads back, with the same entries and timestamps.
    pub fn load_from_bytes(password: &str, data: &Vec<u8>) -> (r: Result<Vault, ClipassError>)
        ensures
            r matches Ok(v) ==> v.wf(),
            data@.len() < HEADER_SIZE ==> (r matches Err(e) && e is Io),
            data@.len() >= HEADER_SIZE ==> match header_of(data@) {
                None => r matches Err(e) && e is HeaderError,
                Some(h) => if !kdf_usable(password.spec_bytes(), h.kdf) {
                    r matches Err(e) && e is CryptoError
                } else {
                    match file_plaintext(password.spec_bytes(), data@, h) {
                        None => r matches Err(e) && e is CryptoError,
                        Some(p) => match entries_of_json(p) {
                            None => r matches Err(e) && e is SerdeError,
                            Some(m) => r matches Ok(v) && v@ == loaded_view(password.spec_bytes(), h, m),
                        },
                    }
                },
            },
            forall|v: VaultView, now: u64, nonce: Seq<u8>| #[trigger] saved_from(password.spec_bytes(), data@, v, now, nonce)
                ==> (r matches Ok(w) && w@ == after_save(v, now)),
    {
        let ghost pw = password.spec_bytes();
        if data.len() < HEADER_SIZE {
            proof {
                assert forall|v: VaultView, now: u64, nonce: Seq<u8>| #[trigger] saved_from(pw, data@, v, now, nonce)
                    implies false by {
                    lemma_file_image_parts(v, now, nonce);
                }
            }
            return Err(io_error("file too small or invalid"));
        }
        let header = match VaultHeader::deserialize(data) {
            Ok(h) => h,
            Err(e) => {
                proof {
                    assert forall|v: VaultView, now: u64, nonce: Seq<u8>| #[trigger] saved_from(pw, data@, v, now, nonce)
                        implies false by {
                        lemma_file_image_parts(v, now, nonce);
                    }
                }
                return Err(e);
            },
        };
        let ghost h = header@;
        proof {
            assert forall|v: VaultView, now: u64, nonce: Seq<u8>| #[trigger] saved_from(pw, data@, v, now, nonce)
                implies h == saved_header(v, now, nonce) && kdf_usable(pw, h.kdf) && file_key(pw, h) == v.key
                && data@.subrange(HEADER_SIZE as int, data@.len() as int) == aes256gcm_seal(v.key, h.nonce, entries_json(v.entries), data@.subrange(0, HEADER_SIZE as int))
                && v.entries.dom().finite() by {
                lemma_file_image_parts(v, now, nonce);
            }
        }
        let key = match derive_key(password, &header.salt, header.kdf) {
            Ok(k) => k,
            Err(e) => return Err(e),
        };
        let aad = copy_range(data, 0, HEADER_SIZE);
        let ciphertext = copy_range(data, HEADER_SIZE, data.len());
        proof {
            lemma_header_round_trip(h, Seq::empty());
        }
        let mut plaintext = match decrypt_data(&key, &header.nonce, ciphertext.as_slice(), aad.as_slice()) {
            Ok(p) => p,
            Err(e) => {
                proof {
                    assert forall|v: VaultView, now: u64, nonce: Seq<u8>| #[trigger] saved_from(pw, data@, v, now, nonce)
                        implies false by {
                        assert(aad@.len() <= A_MAX);
                    }
                }
                return Err(e);
            },
        };
        let decoded = decode_entries(plaintext.as_slice());
        wipe(&mut plaintext);
        let entries = match decoded {
            Some(v) => v,
            None => {
                proof {
                    assert forall|v: VaultView, now: u64, nonce: Seq<u8>| #[trigger] saved_from(pw, data@, v, now, nonce)
                        implies false by {
                        assert(aad@.len() <= A_MAX);
                    }
                }
                return Err(ClipassError::SerdeError(String::from_str("entries cannot be decoded")));
            },
        };
        let vault = Vault {
            entries,
            kdf: header.kdf,
            updated: false,
            created_at: header.created_at,
            modified_at: header.modified_at,
            salt: header.salt,
            key,
        };
        proof {
            assert forall|v: VaultView, now: u64, nonce: Seq<u8>| #[trigger] saved_from(pw, data@, v, now, nonce)
                implies vault@ == after_save(v, now) by {
                assert(aad@.len() <= A_MAX);
            }
        }
        Ok(vault)
    }

    /// Adds the entry `key` with `value`. Fails with `IdExists`, and leaves the
    /// vault as it was, where an entry has that id already.
    pub fn new_entry(&mut self, key: &str, value: &str) -> (r: Result<(), ClipassError>)
        requires
            old(self).wf(),
        ensures
            final(self).wf(),
            old(self)@.entries.contains_key(key@) ==> (r matches Err(e) && e matches ClipassError::IdExists(id) && id@ == key@ && final(self)@ == old(self)@),
            !old(self)@.entries.contains_key(key@) ==> r is Ok && final(self)@ == (VaultView {
                entries: old(self)@.entries.insert(key@, value@),
                updated: true,
                ..old(self)@
            }),
    {
        match find(&self.entries, key) {
            Some(i) => {
                proof {
                    lemma_pairs_map_at(self.entries@, i as int);
                }
                Err(ClipassError::IdExists(String::from_str(key)))
            },
            None => {
                let pair = (String::from_str(key), String::from_str(value));
                proof {
                    lemma_pairs_push(self.entries@, pair);
                }
                self.entries.push(pair);
                self.updated = true;
                Ok(())
            },
        }
    }

    /// Replaces the value of the entry `key`. Fails with `NotFound`, and leaves
    /// the vault as it was, where there is no such entry.
    pub fn update(&mut self, key: &str, value: &str) -> (r: Result<(), ClipassError>)
        requires
            old(self).wf(),
        ensures
            final(self).wf(),
            old(self)@.entries.contains_key(key@) ==> r is Ok && final(self)@ == (VaultView {
                entries: old(self)@.entries.insert(key@, value@),
                updated: true,
                ..old(self)@
            }),
            !old(self)@.entries.contains_key(key@) ==> (r matches Err(e) && e matches ClipassError::NotFound(id) && id@ == key@ && final(self)@ == old(self)@),
    {
        match find(&self.entries, key) {
            Some(i) => {
                let pair = (String::from_str(key), String::from_str(value));
                proof {
                    lemma_pairs_update(self.entries@, i as int, pair);
                }
                self.entries.set(i, pair);
                self.updated = true;
                Ok(())
            },
            None => Err(ClipassError::NotFound(String::from_str(key))),
        }
    }

    /// Removes the entry `key`. Fails with `NotFound`, and leaves the vault as
    /// it was, where there is no such entry.
    pub fn delete_entry(&mut self, key: &str) -> (r: Result<(), ClipassError>)
        requires
            old(self).wf(),
        ensures
            final(self).wf(),
            old(self)@.entries.contains_key(key@) ==> r is Ok && final(self)@ == (VaultView {
                entries: old(self)@.entries.remove(key@),
                updated: true,
                ..old(self)@
            }),
            !old(self)@.entries.contains_key(key@) ==> (r matches Err(e) && e matches ClipassError::NotFound(id) && id@ == key@ && final(self)@ == old(self)@),
    {
        match find(&self.entries, key) {
            Some(i) => {
                proof {
                    lemma_pairs_remove(self.entries@, i as int);
                }
                let _removed = self.entries.remove(i);
                self.updated = true;
                Ok(())
            },
            None => Err(ClipassError::NotFound(String::from_str(key))),
        }
    }
    /// When the vault was created, in unix seconds.
    pub fn created_at(&self) -> (r: u64)
        ensures
            r == self@.created_at,
    {
        self.created_at
    }

    /// When the entries last changed as of the last save or load, in unix
    /// seconds.
    pub fn modified_at(&self) -> (r: u64)
        ensures
            r == self@.modified_at,
    {
        self.modified_at
    }

    /// The key derivation costs of this vault.
    pub fn kdf_params(&self) -> (r: KdfParams)
        ensures
            r == self@.kdf,
    {
        self.kdf
    }

    /// Whether the entries changed since the vault was created, loaded or
    /// saved.
    pub fn is_updated(&self) -> (r: bool)
        ensures
            r == self@.updated,
    {
        self.updated
    }
}

} // verus!
