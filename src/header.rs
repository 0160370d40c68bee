//! The fixed-layout header that starts a vault file.
//!
//! Layout, all integers little-endian:
//!
//! | bytes   | field                         |
//! |---------|-------------------------------|
//! | 0..4    | magic `CLIP`                  |
//! | 4..6    | format version, `3`           |
//! | 6..8    | header size, `80`             |
//! | 8..16   | created at, unix seconds      |
//! | 16..24  | modified at, unix seconds     |
//! | 24..28  | Argon2 memory cost, KiB       |
//! | 28..32  | Argon2 time cost, iterations  |
//! | 32..36  | Argon2 parallelism, lanes     |
//! | 36..68  | salt                          |
//! | 68..80  | AES-GCM nonce                 |
//!
//! The encrypted entries follow the header up to the end of the file.
use crate::codec::{
    copy_range, le_bytes, le_value, lemma_le_round_trip, lemma_le_value_bound,
    lemma_pow256_widths, push_all, push_le, read_le,
};
use crate::error::ClipassError;
use vstd::prelude::*;
use vstd::string::StringExecFns;

verus! {

/// The format revision that this library reads and writes.
pub const VERSION: u16 = 3;

/// The length in bytes of an encoded header.
pub const HEADER_SIZE: usize = 80;

/// The length in bytes of the key derivation salt.
pub const SALT_SIZE: usize = 32;

/// The length in bytes of the AES-GCM nonce.
pub const NONCE_SIZE: usize = 12;

/// Argon2id cost parameters, recorded in each file so that the key can be
/// derived again with the costs it was made with.
#[derive(Clone, Copy, Debug, PartialEq, Eq, Structural)]
pub struct KdfParams {
    /// Memory size in KiB.
    pub memory_cost: u32,
    /// Number of passes.
    pub time_cost: u32,
    /// Number of lanes.
    pub parallelism: u32,
}

impl Default for KdfParams {
    /// The costs given to a new vault: 64 MiB, 3 passes, 4 lanes.
    fn default() -> (r: KdfParams)
        ensures
            r == (KdfParams { memory_cost: 65536, time_cost: 3, parallelism: 4 }),
    {
        KdfParams { memory_cost: 65536, time_cost: 3, parallelism: 4 }
    }
}

/// The contents of a header.
pub struct VaultHeader {
    pub created_at: u64,
    pub modified_at: u64,
    pub kdf: KdfParams,
    pub salt: Vec<u8>,
    pub nonce: Vec<u8>,
}

/// A header as plain values.
pub struct HeaderView {
    pub created_at: u64,
    pub modified_at: u64,
    pub kdf: KdfParams,
    pub salt: Seq<u8>,
    pub nonce: Seq<u8>,
}

impl View for VaultHeader {
    type V = HeaderView;

    open spec fn view(&self) -> HeaderView {
        HeaderView {
            created_at: self.created_at,
            modified_at: self.modified_at,
            kdf: self.kdf,
            salt: self.salt@,
            nonce: self.nonce@,
        }
    }
}

/// The salt and nonce have their fixed lengths.
pub open spec fn header_wf(h: HeaderView) -> bool {
    h.salt.len() == SALT_SIZE && h.nonce.len() == NONCE_SIZE
}

/// The four bytes `CLIP` that open every vault file.
pub open spec fn magic() -> Seq<u8> {
    seq![0x43u8, 0x4cu8, 0x49u8, 0x50u8]
}

/// The encoding of a header.
pub open spec fn header_bytes(h: HeaderView) -> Seq<u8> {
    magic() + le_bytes(VERSION as nat, 2) + le_bytes(HEADER_SIZE as nat, 2) + le_bytes(
        h.created_at as nat,
        8,
    ) + le_bytes(h.modified_at as nat, 8) + le_bytes(h.kdf.memory_cost as nat, 4) + le_bytes(
        h.kdf.time_cost as nat,
        4,
    ) + le_bytes(h.kdf.parallelism as nat, 4) + h.salt + h.nonce
}

/// The header at the start of `b`: none where `b` is too short, or does not
/// open with the magic bytes and this format revision. The size field is
/// informational and not checked.
pub open spec fn header_of(b: Seq<u8>) -> Option<HeaderView> {
    if b.len() < HEADER_SIZE || b.subrange(0, 4) != magic() || le_value(b.subrange(4, 6))
        != VERSION {
        None
    } else {
        Some(
            HeaderView {
                created_at: le_value(b.subrange(8, 16)) as u64,
                modified_at: le_value(b.subrange(16, 24)) as u64,
                kdf: KdfParams {
                    memory_cost: le_value(b.subrange(24, 28)) as u32,
                    time_cost: le_value(b.subrange(28, 32)) as u32,
                    parallelism: le_value(b.subrange(32, 36)) as u32,
                },
                salt: b.subrange(36, 68),
                nonce: b.subrange(68, 80),
            },
        )
    }
}

/// A well-formed header reads back from its encoding, whatever follows it.
pub proof fn lemma_header_round_trip(h: HeaderView, rest: Seq<u8>)
    requires
        header_wf(h),
    ensures
        header_of(header_bytes(h) + rest) == Some(h),
{
    let b = header_bytes(h) + rest;
    lemma_pow256_widths();
    lemma_le_round_trip(VERSION as nat, 2);
    lemma_le_round_trip(h.created_at as nat, 8);
    lemma_le_round_trip(h.modified_at as nat, 8);
    lemma_le_round_trip(h.kdf.memory_cost as nat, 4);
    lemma_le_round_trip(h.kdf.time_cost as nat, 4);
    lemma_le_round_trip(h.kdf.parallelism as nat, 4);
    assert(b.subrange(0, 4) =~= magic());
    assert(b.subrange(4, 6) =~= le_bytes(VERSION as nat, 2));
    assert(b.subrange(8, 16) =~= le_bytes(h.created_at as nat, 8));
    assert(b.subrange(16, 24) =~= le_bytes(h.modified_at as nat, 8));
    assert(b.subrange(24, 28) =~= le_bytes(h.kdf.memory_cost as nat, 4));
    assert(b.subrange(28, 32) =~= le_bytes(h.kdf.time_cost as nat, 4));
    assert(b.subrange(32, 36) =~= le_bytes(h.kdf.parallelism as nat, 4));
    assert(b.subrange(36, 68) =~= h.salt);
    assert(b.subrange(68, 80) =~= h.nonce);
}

fn header_error(msg: &str) -> (r: ClipassError)
    ensures
        r is HeaderError,
{
    ClipassError::HeaderError(String::from_str(msg))
}

impl VaultHeader {
    pub fn new(salt: Vec<u8>, nonce: Vec<u8>, created_at: u64, modified_at: u64, kdf: KdfParams) -> (r:
        Self)
        ensures
            r@ == (HeaderView { created_at, modified_at, kdf, salt: salt@, nonce: nonce@ }),
    {
        VaultHeader { created_at, modified_at, kdf, salt, nonce }
    }

    /// The encoding of this header.
    pub fn serialize(&self) -> (r: Vec<u8>)
        requires
            header_wf(self@),
        ensures
            r@ == header_bytes(self@),
            r@.len() == HEADER_SIZE,
    {
        let mut buf: Vec<u8> = Vec::new();
        buf.push(0x43u8);
        buf.push(0x4cu8);
        buf.push(0x49u8);
        buf.push(0x50u8);
        assert(buf@ =~= magic());
        push_le(&mut buf, VERSION as u64, 2);
        push_le(&mut buf, HEADER_SIZE as u64, 2);
        push_le(&mut buf, self.created_at, 8);
        push_le(&mut buf, self.modified_at, 8);
        push_le(&mut buf, self.kdf.memory_cost as u64, 4);
        push_le(&mut buf, self.kdf.time_cost as u64, 4);
        push_le(&mut buf, self.kdf.parallelism as u64, 4);
        push_all(&mut buf, &self.salt);
        push_all(&mut buf, &self.nonce);
        buf
    }

    /// Reads the header at the start of `data`. Fails with `HeaderError` where
    /// `data` is shorter than a header, or does not open with the magic bytes
    /// and this format revision.
    pub fn deserialize(data: &Vec<u8>) -> (r: Result<Self, ClipassError>)
        ensures
            match header_of(data@) {
                Some(h) => r matches Ok(v) && v@ == h,
                None => r matches Err(e) && e is HeaderError,
            },
            r matches Ok(v) ==> header_wf(v@),
    {
        if data.len() < HEADER_SIZE {
            return Err(header_error("truncated header"));
        }
        if data[0] != 0x43u8 || data[1] != 0x4cu8 || data[2] != 0x49u8 || data[3] != 0x50u8 {
            assert(data@.subrange(0, 4) != magic()) by {
                if data@.subrange(0, 4) == magic() {
                    assert(data@[0] == data@.subrange(0, 4)[0]);
                    assert(data@[1] == data@.subrange(0, 4)[1]);
                    assert(data@[2] == data@.subrange(0, 4)[2]);
                    assert(data@[3] == data@.subrange(0, 4)[3]);
                }
            }
            return Err(header_error("bad magic"));
        }
        assert(data@.subrange(0, 4) =~= magic());
        let version = read_le(data, 4, 2);
        if version != VERSION as u64 {
            return Err(header_error("incompatible version"));
        }
        proof {
            lemma_pow256_widths();
            lemma_le_value_bound(data@.subrange(8, 16));
            lemma_le_value_bound(data@.subrange(16, 24));
            lemma_le_value_bound(data@.subrange(24, 28));
            lemma_le_value_bound(data@.subrange(28, 32));
            lemma_le_value_bound(data@.subrange(32, 36));
        }
        let created_at = read_le(data, 8, 8);
        let modified_at = read_le(data, 16, 8);
        let memory_cost = read_le(data, 24, 4) as u32;
        let time_cost = read_le(data, 28, 4) as u32;
        let parallelism = read_le(data, 32, 4) as u32;
        let salt = copy_range(data, 36, 68);
        let nonce = copy_range(data, 68, 80);
        Ok(
            VaultHeader {
                created_at,
                modified_at,
                kdf: KdfParams { memory_cost, time_cost, parallelism },
                salt,
                nonce,
            },
        )
    }
}

} // verus!
