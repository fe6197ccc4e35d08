//! The metadata table: its fixed magic marker, version field, capability
//! flag bit positions, and a decoder for the binary layout that the
//! consuming side reads, which rejects any table whose magic or version
//! does not match this generator exactly.

use vstd::prelude::*;

verus! {

/// Length in bytes of the magic marker field.
pub const MAGIC_LEN: usize = 128;

/// Length in bytes of the version field.
pub const VERSION_LEN: usize = 16;

/// Bit position recording that the type is copy-constructible.
pub const FLAG_IS_COPY_CONSTRUCTIBLE: u64 = 0;

/// Bit position recording that the type is default-constructible.
pub const FLAG_IS_DEFAULT_CONSTRUCTIBLE: u64 = 1;

/// Bit position recording that the type is trivially destructible.
pub const FLAG_IS_TRIVIALLY_DESTRUCTIBLE: u64 = 2;

/// Bit position recording that the type is trivially copyable.
pub const FLAG_IS_TRIVIALLY_COPYABLE: u64 = 3;

/// Bit position recording that the type is trivially default-constructible.
pub const FLAG_IS_TRIVIALLY_DEFAULT_CONSTRUCTIBLE: u64 = 4;

/// Human-readable tag that opens the magic marker; the rest of the marker
/// is zero padding.
pub open spec fn magic_tag() -> Seq<char> {
    "cpp_build metadata marker"@
}

/// The generator's version string, stamped into every table it emits; a
/// consumer must reject a table whose version does not match exactly.
pub open spec fn version_str() -> Seq<char> {
    "0.1.0"@
}

/// Returns the generator's version string.
pub fn generator_version() -> (r: &'static str)
    ensures
        r@ == version_str(),
{
    "0.1.0"
}

/// The fixed magic byte sequence that opens every metadata table.
pub open spec fn magic_seq() -> Seq<u8> {
    Seq::new(
        MAGIC_LEN as nat,
        |i: int|
            if i < magic_tag().len() {
                magic_tag()[i] as u8
            } else {
                0u8
            },
    )
}

/// The version field: the generator's version string, zero padded to the
/// fixed field length.
pub open spec fn version_seq() -> Seq<u8> {
    Seq::new(
        VERSION_LEN as nat,
        |i: int|
            if i < version_str().len() {
                version_str()[i] as u8
            } else {
                0u8
            },
    )
}

/// Builds the magic marker bytes.
pub fn magic_bytes() -> (r: Vec<u8>)
    ensures
        r@ == magic_seq(),
{
    let tag = "cpp_build metadata marker";
    let n = tag.unicode_len();
    proof {
        reveal_strlit("cpp_build metadata marker");
        assert(n < MAGIC_LEN);
    }
    let mut r: Vec<u8> = Vec::new();
    let mut i: usize = 0;
    while i < MAGIC_LEN
        invariant
            i <= MAGIC_LEN,
            n == magic_tag().len(),
            tag@ == magic_tag(),
            n < MAGIC_LEN,
            r@ == magic_seq().take(i as int),
        decreases MAGIC_LEN - i,
    {
        if i < n {
            let c = tag.get_char(i);
            r.push(c as u8);
        } else {
            r.push(0u8);
        }
        i = i + 1;
        proof {
            assert(r@ =~= magic_seq().take(i as int));
        }
    }
    proof {
        assert(magic_seq().take(MAGIC_LEN as int) =~= magic_seq());
    }
    r
}

/// Builds the zero-padded version field bytes.
pub fn version_bytes() -> (r: Vec<u8>)
    ensures
        r@ == version_seq(),
{
    let v = generator_version();
    let n = v.unicode_len();
    proof {
        reveal_strlit("0.1.0");
        assert(n < VERSION_LEN);
    }
    let mut r: Vec<u8> = Vec::new();
    let mut i: usize = 0;
    while i < VERSION_LEN
        invariant
            i <= VERSION_LEN,
            n == version_str().len(),
            v@ == version_str(),
            n < VERSION_LEN,
            r@ == version_seq().take(i as int),
        decreases VERSION_LEN - i,
    {
        if i < n {
            let c = v.get_char(i);
            r.push(c as u8);
        } else {
            r.push(0u8);
        }
        i = i + 1;
        proof {
            assert(r@ =~= version_seq().take(i as int));
        }
    }
    proof {
        assert(version_seq().take(VERSION_LEN as int) =~= version_seq());
    }
    r
}

} // verus!

verus! {

/// One decoded metadata record.
#[derive(Clone, Copy, Debug, PartialEq, Eq, Structural)]
pub struct MetaEntry {
    pub hash: u64,
    pub size: u64,
    pub align: u64,
    pub flags: u64,
}

/// Why a probed table was rejected.
#[derive(Clone, Copy, Debug, PartialEq, Eq, Structural)]
pub enum DecodeError {
    /// Shorter than one header.
    Truncated,
    /// The magic marker is not this generator's.
    BadMagic,
    /// The version field is not this generator's version, exactly.
    BadVersion,
    /// The entry count does not match the table's actual length.
    WrongLength,
}

/// The little-endian 64-bit number at offset `off`.
pub open spec fn sp_le64(b: Seq<u8>, off: int) -> u64 {
    (b[off] + b[off + 1] * 0x100 + b[off + 2] * 0x10000 + b[off + 3] * 0x1000000 + b[off + 4]
        * 0x100000000 + b[off + 5] * 0x10000000000 + b[off + 6] * 0x1000000000000 + b[off + 7]
        * 0x100000000000000) as u64
}

/// The record starting at offset `off`.
pub open spec fn sp_entry(b: Seq<u8>, off: int) -> MetaEntry {
    MetaEntry {
        hash: sp_le64(b, off),
        size: sp_le64(b, off + 8),
        align: sp_le64(b, off + 16),
        flags: sp_le64(b, off + 24),
    }
}

/// Decoding a probed table: the magic marker and the version field must
/// match this generator byte for byte, and are checked before any entry is
/// read; then the declared entry count must account for the table's exact
/// length; only then are the records read.
pub open spec fn sp_decode(b: Seq<u8>) -> Result<Seq<MetaEntry>, DecodeError> {
    if b.len() < 152 {
        Err(DecodeError::Truncated)
    } else if b.subrange(0, 128) != magic_seq() {
        Err(DecodeError::BadMagic)
    } else if b.subrange(128, 144) != version_seq() {
        Err(DecodeError::BadVersion)
    } else {
        let count = sp_le64(b, 144);
        if b.len() != 152 + 32 * count {
            Err(DecodeError::WrongLength)
        } else {
            Ok(Seq::new(count as nat, |i: int| sp_entry(b, 152 + 32 * i)))
        }
    }
}

/// A table whose version field differs from this generator's is rejected
/// outright, before any entry is read, whatever the rest of the bytes hold.
pub proof fn lemma_version_mismatch_rejected(b: Seq<u8>)
    requires
        b.len() >= 152,
        b.subrange(0, 128) == magic_seq(),
        b.subrange(128, 144) != version_seq(),
    ensures
        sp_decode(b) == Err::<Seq<MetaEntry>, DecodeError>(DecodeError::BadVersion),
{
}

/// Reads the little-endian 64-bit number at offset `off`.
fn read_le64(b: &Vec<u8>, off: usize) -> (r: u64)
    requires
        off + 8 <= b@.len(),
        b@.len() <= usize::MAX,
    ensures
        r == sp_le64(b@, off as int),
{
    (b[off] as u64) + (b[off + 1] as u64) * 0x100 + (b[off + 2] as u64) * 0x10000 + (b[off + 3]
        as u64) * 0x1000000 + (b[off + 4] as u64) * 0x100000000 + (b[off + 5] as u64)
        * 0x10000000000 + (b[off + 6] as u64) * 0x1000000000000 + (b[off + 7] as u64)
        * 0x100000000000000
}

/// Compares `b[off..off + m.len()]` with `m`.
fn range_eq(b: &Vec<u8>, off: usize, m: &Vec<u8>) -> (r: bool)
    requires
        off + m@.len() <= b@.len(),
        b@.len() <= usize::MAX,
    ensures
        r == (b@.subrange(off as int, off + m@.len()) == m@),
{
    let mut k: usize = 0;
    while k < m.len()
        invariant
            k <= m@.len(),
            off + m@.len() <= b@.len(),
            b@.len() <= usize::MAX,
            forall|t: int| 0 <= t < k ==> b@[off + t] == m@[t],
        decreases m@.len() - k,
    {
        if b[off + k] != m[k] {
            proof {
                assert(b@.subrange(off as int, off + m@.len())[k as int] != m@[k as int]);
            }
            return false;
        }
        k = k + 1;
    }
    proof {
        assert(b@.subrange(off as int, off + m@.len()) =~= m@);
    }
    true
}

/// Decodes a probed table, per `sp_decode`: magic and version first, then
/// the count, then the records.
pub fn decode_table(b: &Vec<u8>) -> (r: Result<Vec<MetaEntry>, DecodeError>)
    ensures
        match r {
            Ok(v) => sp_decode(b@) == Ok::<Seq<MetaEntry>, DecodeError>(v@),
            Err(e) => sp_decode(b@) == Err::<Seq<MetaEntry>, DecodeError>(e),
        },
{
    let bn = b.len();
    proof {
        assert(b@.len() <= usize::MAX);
    }
    if bn < 152 {
        return Err(DecodeError::Truncated);
    }
    let magic = magic_bytes();
    if !range_eq(b, 0, &magic) {
        return Err(DecodeError::BadMagic);
    }
    let version = version_bytes();
    if !range_eq(b, 128, &version) {
        return Err(DecodeError::BadVersion);
    }
    let count = read_le64(b, 144);
    let avail = (bn - 152) as u64;
    if avail % 32 != 0 || count != avail / 32 {
        proof {
            vstd::arithmetic::div_mod::lemma_fundamental_div_mod(avail as int, 32);
            assert(b@.len() != 152 + 32 * sp_le64(b@, 144));
        }
        return Err(DecodeError::WrongLength);
    }
    proof {
        vstd::arithmetic::div_mod::lemma_fundamental_div_mod(avail as int, 32);
        assert(b@.len() == 152 + 32 * sp_le64(b@, 144));
    }
    let mut v: Vec<MetaEntry> = Vec::new();
    let mut i: usize = 0;
    while (i as u64) < count
        invariant
            i as u64 <= count,
            count == sp_le64(b@, 144),
            b@.len() == 152 + 32 * count,
            b@.len() <= usize::MAX,
            v@.len() == i,
            forall|t: int| 0 <= t < i ==> v@[t] == sp_entry(b@, 152 + 32 * t),
        decreases count - i,
    {
        let off = 152 + 32 * i;
        let e = MetaEntry {
            hash: read_le64(b, off),
            size: read_le64(b, off + 8),
            align: read_le64(b, off + 16),
            flags: read_le64(b, off + 24),
        };
        v.push(e);
        i = i + 1;
    }
    proof {
        assert(v@ =~= Seq::new(count as nat, |t: int| sp_entry(b@, 152 + 32 * t)));
    }
    Ok(v)
}

} // verus!
