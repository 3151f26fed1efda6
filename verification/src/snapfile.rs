use vstd::prelude::*;
use vstd::slice::{slice_subrange, slice_to_vec};
use crate::error::Error;
use crate::text::{chars_of, decimal, digit_char, ends_with, starts_with, parse_radix, parse_u64_radix, string_of, u64_to_decimal};
use vstd::string::StringExecFns;

verus! {

/// The CRC-32C (Castagnoli, the catalogue's `CRC_32_ISCSI`) checksum of a byte string,
/// as the `crc` crate computes it.
pub uninterp spec fn spec_crc32c(data: Seq<u8>) -> u32;

/// Calls `crc::Crc::<u32>::checksum` with the `CRC_32_ISCSI` algorithm; the result is
/// the checksum of exactly the given bytes.
#[verifier::external_body]
fn crc32c(data: &[u8]) -> (r: u32)
    ensures
        r == spec_crc32c(data@),
{
    crc::Crc::<u32>::new(&crc::CRC_32_ISCSI).checksum(data)
}

// ---------------------------------------------------------------------------
// Varints, as protobuf writes them: seven bits per byte, low bits first, the top
// bit set on every byte but the last.

/// The bytes that encode `v` as a varint.
pub open spec fn varint_bytes(v: nat) -> Seq<u8>
    decreases v,
{
    if v < 128 {
        seq![v as u8]
    } else {
        seq![(v % 128 + 128) as u8] + varint_bytes(v / 128)
    }
}

/// The varint that starts at `i`, read with at most `10 - k` bytes: its value and the
/// position just after it.
pub open spec fn varint_at(s: Seq<u8>, i: int, k: nat) -> Option<(nat, int)>
    decreases 10 - k,
{
    if k >= 10 || i < 0 || i >= s.len() {
        None
    } else if s[i] < 128 {
        Some((s[i] as nat, i + 1))
    } else {
        match varint_at(s, i + 1, k + 1) {
            Some((v, j)) => Some(((s[i] - 128) as nat + 128 * v, j)),
            None => None,
        }
    }
}

pub proof fn lemma_varint_at_advances(s: Seq<u8>, i: int, k: nat)
    ensures
        varint_at(s, i, k) matches Some((v, j)) ==> i < j <= s.len(),
    decreases 10 - k,
{
    if k < 10 && 0 <= i < s.len() && s[i] >= 128 {
        lemma_varint_at_advances(s, i + 1, k + 1);
    }
}

proof fn lemma_varint_at_bound(s: Seq<u8>, i: int, k: nat)
    ensures
        varint_at(s, i, k) matches Some((v, j)) ==> v < pow128((10 - k) as nat),
    decreases 10 - k,
{
    if k < 10 && 0 <= i < s.len() {
        if s[i] >= 128 {
            lemma_varint_at_bound(s, i + 1, k + 1);
            assert(pow128((10 - k) as nat) == 128 * pow128((10 - (k + 1)) as nat));
        } else {
            lemma_pow128_mono(1, (10 - k) as nat);
            assert(pow128(1) == 128 * pow128(0));
        }
    }
}

pub open spec fn pow128(m: nat) -> nat
    decreases m,
{
    if m == 0 {
        1
    } else {
        128 * pow128((m - 1) as nat)
    }
}

proof fn lemma_varint_bytes_len(v: nat, m: nat)
    requires
        m >= 1,
        v < pow128(m),
    ensures
        varint_bytes(v).len() <= m,
    decreases v,
{
    if v >= 128 {
        assert(m >= 2) by {
            if m == 1 {
                assert(pow128(1) == 128 * pow128(0));
            }
        }
        assert(v / 128 < pow128((m - 1) as nat));
        lemma_varint_bytes_len(v / 128, (m - 1) as nat);
    }
}

proof fn lemma_u64_varint_len(v: nat)
    requires
        v <= u64::MAX,
    ensures
        varint_bytes(v).len() <= 10,
{
    assert(pow128(10) == 1180591620717411303424nat) by {
        reveal_with_fuel(pow128, 11);
    }
    lemma_varint_bytes_len(v, 10);
}

proof fn lemma_varint_roundtrip(s: Seq<u8>, i: int, v: nat, k: nat)
    requires
        0 <= i,
        i + varint_bytes(v).len() <= s.len(),
        s.subrange(i, i + varint_bytes(v).len()) == varint_bytes(v),
        varint_bytes(v).len() + k <= 10,
    ensures
        varint_at(s, i, k) == Some((v, i + varint_bytes(v).len())),
    decreases v,
{
    let vb = varint_bytes(v);
    assert(s[i] == s.subrange(i, i + vb.len())[0]);
    if v >= 128 {
        let rest = varint_bytes(v / 128);
        assert(vb == seq![(v % 128 + 128) as u8] + rest);
        assert(s.subrange(i + 1, i + 1 + rest.len()) =~= s.subrange(i, i + vb.len()).subrange(
            1,
            vb.len() as int,
        ));
        assert(vb.subrange(1, vb.len() as int) =~= rest);
        lemma_varint_roundtrip(s, i + 1, v / 128, k + 1);
    }
}

// ---------------------------------------------------------------------------
// A snapshot file holds one protobuf message with two fields: field 1, the
// checksum (uint32), and field 2, the snapshot bytes. A field equal to its default
// (zero, or no bytes) is left out when writing.

/// The bytes of a snapshot file that holds `crc` and `data`.
pub open spec fn frame_bytes(crc: u32, data: Seq<u8>) -> Seq<u8> {
    (if crc != 0 {
        seq![8u8] + varint_bytes(crc as nat)
    } else {
        Seq::empty()
    }) + (if data.len() > 0 {
        seq![18u8] + varint_bytes(data.len()) + data
    } else {
        Seq::empty()
    })
}

/// Reads the fields from position `i` on, having found `crc` and `data` so far.
/// Fields other than the two are skipped by their wire type; a later copy of a
/// field replaces an earlier one.
pub open spec fn frame_fields(s: Seq<u8>, i: int, crc: u32, data: Seq<u8>) -> Option<
    (u32, Seq<u8>),
>
    decreases s.len() - i,
    when 0 <= i <= s.len()
{
    if i >= s.len() {
        Some((crc, data))
    } else {
        match varint_at(s, i, 0) {
            None => None,
            Some((key, j)) => {
                proof {
                    lemma_varint_at_advances(s, i, 0);
                }
                let field = key / 8;
                let wire = key % 8;
                if field == 0 {
                    None
                } else if wire == 0 {
                    match varint_at(s, j, 0) {
                        None => None,
                        Some((v, k)) => {
                            proof {
                                lemma_varint_at_advances(s, j, 0);
                            }
                            if field == 1 {
                                if v > u32::MAX {
                                    None
                                } else {
                                    frame_fields(s, k, v as u32, data)
                                }
                            } else if field == 2 {
                                None
                            } else {
                                frame_fields(s, k, crc, data)
                            }
                        },
                    }
                } else if wire == 2 {
                    match varint_at(s, j, 0) {
                        None => None,
                        Some((len, k)) => {
                            proof {
                                lemma_varint_at_advances(s, j, 0);
                            }
                            if k + len > s.len() {
                                None
                            } else if field == 1 {
                                None
                            } else if field == 2 {
                                frame_fields(s, k + len, crc, s.subrange(k, k + len))
                            } else {
                                frame_fields(s, k + len, crc, data)
                            }
                        },
                    }
                } else if wire == 1 || wire == 5 {
                    let w = if wire == 1 {
                        8int
                    } else {
                        4int
                    };
                    if j + w > s.len() || field == 1 || field == 2 {
                        None
                    } else {
                        frame_fields(s, j + w, crc, data)
                    }
                } else {
                    None
                }
            },
        }
    }
}

/// The checksum and the snapshot bytes that a snapshot file holds, if it is well formed.
pub open spec fn parse_frame(s: Seq<u8>) -> Option<(u32, Seq<u8>)> {
    frame_fields(s, 0, 0, Seq::empty())
}

proof fn lemma_frame_data_part(s: Seq<u8>, p: int, crc: u32, data: Seq<u8>)
    requires
        0 <= p <= s.len(),
        data.len() <= u64::MAX,
        s.subrange(p, s.len() as int) == (if data.len() > 0 {
            seq![18u8] + varint_bytes(data.len()) + data
        } else {
            Seq::empty()
        }),
    ensures
        frame_fields(s, p, crc, Seq::empty()) == Some((crc, data)),
{
    if data.len() > 0 {
        let lb = varint_bytes(data.len());
        lemma_u64_varint_len(data.len());
        let t = s.subrange(p, s.len() as int);
        assert(t == seq![18u8] + lb + data);
        assert(t.len() == 1 + lb.len() + data.len());
        assert(t[0] == 18u8);
        assert(s[p] == t[0]);
        assert(varint_at(s, p, 0) == Some((18nat, p + 1)));
        assert(s.subrange(p + 1, p + 1 + lb.len()) =~= t.subrange(1, 1 + lb.len() as int));
        assert(t.subrange(1, 1 + lb.len() as int) =~= lb);
        lemma_varint_roundtrip(s, p + 1, data.len(), 0);
        let k = p + 1 + lb.len();
        assert(k + data.len() == s.len());
        assert(s.subrange(k, k + data.len()) =~= t.subrange(1 + lb.len() as int, t.len() as int));
        assert(t.subrange(1 + lb.len() as int, t.len() as int) =~= data);
        assert(frame_fields(s, k + data.len(), crc, data) == Some((crc, data)));
    } else {
        assert(s.len() == p) by {
            assert(s.subrange(p, s.len() as int).len() == 0);
        }
    }
}

/// Reading a snapshot file gives back the checksum and the bytes it was written with.
pub proof fn lemma_frame_roundtrip(crc: u32, data: Seq<u8>)
    requires
        data.len() <= u64::MAX,
    ensures
        parse_frame(frame_bytes(crc, data)) == Some((crc, data)),
{
    let s = frame_bytes(crc, data);
    let tail = if data.len() > 0 {
        seq![18u8] + varint_bytes(data.len()) + data
    } else {
        Seq::<u8>::empty()
    };
    if crc != 0 {
        let cb = varint_bytes(crc as nat);
        lemma_u64_varint_len(crc as nat);
        let p: int = 1 + cb.len() as int;
        assert(s =~= seq![8u8] + cb + tail);
        assert(varint_at(s, 0, 0) == Some((8nat, 1int)));
        assert(s.subrange(1, 1 + cb.len() as int) =~= cb);
        lemma_varint_roundtrip(s, 1, crc as nat, 0);
        assert(s.subrange(p, s.len() as int) =~= tail);
        lemma_frame_data_part(s, p, crc, data);
    } else {
        assert(s =~= tail);
        assert(s.subrange(0, s.len() as int) =~= tail);
        lemma_frame_data_part(s, 0, crc, data);
    }
}

proof fn lemma_varint_none(s: Seq<u8>, i: int, k: nat, j: int)
    requires
        0 <= i <= j,
        forall|q: int| i <= q < j ==> #[trigger] s[q] >= 128,
        k + (j - i) >= 10 || j >= s.len(),
    ensures
        varint_at(s, i, k) is None,
    decreases j - i,
{
    if k < 10 && i < s.len() && i < j {
        lemma_varint_none(s, i + 1, k + 1, j);
    }
}

proof fn lemma_pow128_mono(a: nat, b: nat)
    requires
        a <= b,
    ensures
        pow128(a) <= pow128(b),
    decreases b,
{
    if a < b {
        lemma_pow128_mono(a, (b - 1) as nat);
    }
}

/// Reads the varint that starts at `i`.
pub fn read_varint(s: &[u8], i: usize) -> (r: Option<(u128, usize)>)
    ensures
        varint_at(s@, i as int, 0) matches Some((v, j)) ==> v <= u128::MAX,
        match varint_at(s@, i as int, 0) {
            Some((v, j)) => r == Some((v as u128, j as usize)),
            None => r is None,
        },
{
    proof {
        lemma_varint_at_bound(s@, i as int, 0);
        lemma_pow128_mono(0, 10);
        assert(pow128(10) == 1180591620717411303424nat) by {
            reveal_with_fuel(pow128, 11);
        }
    }
    let len = s.len();
    if i >= len {
        return None;
    }
    let mut j = i;
    while j < len && j - i < 10 && s[j] >= 128
        invariant
            i <= j <= len,
            len == s@.len(),
            j - i <= 10,
            forall|q: int| i <= q < j ==> #[trigger] s@[q] >= 128,
        decreases len - j,
    {
        j = j + 1;
    }
    if j >= len || j - i >= 10 {
        proof {
            lemma_varint_none(s@, i as int, 0, j as int);
        }
        return None;
    }
    let mut v: u128 = s[j] as u128;
    let mut m = j;
    proof {
        reveal_with_fuel(pow128, 2);
        assert(varint_at(s@, j as int, (j - i) as nat) == Some((s@[j as int] as nat, j + 1)));
    }
    while m > i
        invariant
            i <= m <= j < len,
            len == s@.len(),
            j - i < 10,
            forall|q: int| i <= q < j ==> #[trigger] s@[q] >= 128,
            varint_at(s@, m as int, (m - i) as nat) == Some((v as nat, j + 1)),
            v < pow128((j - m + 1) as nat),
        decreases m,
    {
        m = m - 1;
        proof {
            lemma_pow128_mono((j - m) as nat, 9);
            assert(pow128(9) == 9223372036854775808nat) by {
                reveal_with_fuel(pow128, 10);
            }
            assert(pow128((j - m + 1) as nat) == 128 * pow128((j - m) as nat));
        }
        let b = s[m];
        v = (b - 128) as u128 + 128 * v;
    }
    Some((v, j + 1))
}

/// Appends the varint encoding of `v`.
pub fn write_varint(out: &mut Vec<u8>, v: u64)
    ensures
        final(out)@ == old(out)@ + varint_bytes(v as nat),
{
    let mut x = v;
    while x >= 128
        invariant
            old(out)@ + varint_bytes(v as nat) == out@ + varint_bytes(x as nat),
        decreases x,
    {
        let ghost before = out@;
        out.push((x % 128 + 128) as u8);
        assert(varint_bytes(x as nat) == seq![(x % 128 + 128) as u8] + varint_bytes(
            (x / 128) as nat,
        ));
        assert(before + varint_bytes(x as nat) =~= out@ + varint_bytes((x / 128) as nat));
        x = x / 128;
    }
    out.push(x as u8);
    assert(varint_bytes(x as nat) =~= seq![x as u8]);
}

/// The checksum that a snapshot file carries: the CRC-32C digest as it stands before
/// any byte is fed to it, that is the checksum of no bytes. The field is the same for
/// every snapshot, so it checks nothing of the data that follows it; saving and
/// reading both use this value, which keeps files written so far readable.
pub open spec fn fresh_digest() -> u32 {
    spec_crc32c(Seq::empty())
}

/// The checksum of no bytes.
fn fresh_digest_value() -> (r: u32)
    ensures
        r == fresh_digest(),
{
    let none: Vec<u8> = Vec::new();
    crc32c(none.as_slice())
}

/// The bytes of a snapshot file for `data`: the checksum field, holding the checksum
/// of a digest to which no byte was fed, followed by the data.
pub fn snap_frame(data: &[u8]) -> (r: Vec<u8>)
    ensures
        r@ == frame_bytes(fresh_digest(), data@),
{
    let crc = fresh_digest_value();
    let mut out: Vec<u8> = Vec::new();
    if crc != 0 {
        out.push(8u8);
        write_varint(&mut out, crc as u64);
    }
    if data.len() > 0 {
        out.push(18u8);
        write_varint(&mut out, data.len() as u64);
        let mut i: usize = 0;
        let ghost base = out@;
        while i < data.len()
            invariant
                i <= data@.len(),
                out@ == base + data@.subrange(0, i as int),
            decreases data@.len() - i,
        {
            out.push(data[i]);
            assert(data@.subrange(0, i + 1) =~= data@.subrange(0, i as int).push(data@[i as int]));
            i = i + 1;
        }
        assert(data@.subrange(0, data@.len() as int) =~= data@);
    }
    assert(out@ =~= frame_bytes(crc, data@));
    out
}

/// Reads the checksum and the snapshot bytes out of the contents of a snapshot file;
/// `None` when the contents are not a well-formed record.
pub fn parse_snap_frame(s: &[u8]) -> (r: Option<(u32, Vec<u8>)>)
    ensures
        match parse_frame(s@) {
            Some((c, d)) => r matches Some((rc, rd)) && rc == c && rd@ == d,
            None => r is None,
        },
{
    let len = s.len();
    let mut i: usize = 0;
    let mut crc: u32 = 0;
    let mut data: Vec<u8> = Vec::new();
    while i < len
        invariant
            len == s@.len(),
            i <= len,
            parse_frame(s@) == frame_fields(s@, i as int, crc, data@),
        decreases len - i,
    {
        let (key, j) = match read_varint(s, i) {
            Some(kj) => kj,
            None => {
                return None;
            },
        };
        proof {
            lemma_varint_at_advances(s@, i as int, 0);
        }
        let field = key / 8;
        let wire = key % 8;
        if field == 0 {
            return None;
        }
        if wire == 0 {
            let (v, k) = match read_varint(s, j) {
                Some(vk) => vk,
                None => {
                    return None;
                },
            };
            proof {
                lemma_varint_at_advances(s@, j as int, 0);
            }
            if field == 1 {
                if v > u32::MAX as u128 {
                    return None;
                }
                crc = v as u32;
            } else if field == 2 {
                return None;
            }
            i = k;
        } else if wire == 2 {
            let (n, k) = match read_varint(s, j) {
                Some(nk) => nk,
                None => {
                    return None;
                },
            };
            proof {
                lemma_varint_at_advances(s@, j as int, 0);
            }
            if n > (len - k) as u128 {
                return None;
            }
            let end = k + n as usize;
            if field == 1 {
                return None;
            } else if field == 2 {
                data = slice_to_vec(slice_subrange(s, k, end));
            }
            i = end;
        } else if wire == 1 || wire == 5 {
            let w: usize = if wire == 1 {
                8
            } else {
                4
            };
            if w > len - j || field == 1 || field == 2 {
                return None;
            }
            i = j + w;
        } else {
            return None;
        }
    }
    Some((crc, data))
}

/// What reading a snapshot file with contents `s` gives: the snapshot bytes, or the
/// reason they are refused.
pub open spec fn snap_read_result(s: Seq<u8>) -> Result<Seq<u8>, Error> {
    if s.len() == 0 {
        Err(Error::ErrEmptySnapshot)
    } else {
        match parse_frame(s) {
            Some((c, d)) => if fresh_digest() != c {
                Err(Error::ErrCRCMismatch)
            } else {
                Ok(d)
            },
            None => Err(Error::ErrEmptySnapshot),
        }
    }
}

/// Checks the contents of a snapshot file and hands back the snapshot bytes: an
/// empty file is refused, and so is one whose checksum field differs from the
/// checksum of a digest to which no byte was fed.
pub fn read_snap_frame(s: &[u8]) -> (r: Result<Vec<u8>, Error>)
    requires
        s@.len() == 0 || parse_frame(s@) is Some,
    ensures
        match snap_read_result(s@) {
            Ok(d) => r matches Ok(rd) && rd@ == d,
            Err(e) => r == Err::<Vec<u8>, Error>(e),
        },
{
    if s.len() == 0 {
        return Err(Error::ErrEmptySnapshot);
    }
    match parse_snap_frame(s) {
        Some((crc, data)) => {
            let c = fresh_digest_value();
            if c != crc {
                return Err(Error::ErrCRCMismatch);
            }
            Ok(data)
        },
        None => Err(Error::ErrEmptySnapshot),
    }
}

/// The text of the error that reading a snapshot file reports: `empty snapshot file`
/// for an empty file, `crc mismatch` for one whose checksum field is not the expected
/// one.
pub open spec fn read_error_text(e: Error) -> Seq<char> {
    if e == Error::ErrCRCMismatch {
        "crc mismatch"@
    } else {
        "empty snapshot file"@
    }
}

/// Reads a snapshot file given its contents: the snapshot bytes, or the text of the
/// error (`empty snapshot file` for an empty file, `crc mismatch` when the checksum
/// field is not the checksum of a digest to which no byte was fed).
pub fn read(contents: &[u8]) -> (r: Result<Vec<u8>, String>)
    requires
        contents@.len() == 0 || parse_frame(contents@) is Some,
    ensures
        match snap_read_result(contents@) {
            Ok(d) => r matches Ok(rd) && rd@ == d,
            Err(e) => r matches Err(m) && m@ == read_error_text(e),
        },
{
    match read_snap_frame(contents) {
        Ok(d) => Ok(d),
        Err(Error::ErrCRCMismatch) => Err("crc mismatch".to_string()),
        Err(_) => Err("empty snapshot file".to_string()),
    }
}

/// A snapshot file written for non-empty `data` reads back as exactly that data.
pub proof fn lemma_snap_file_roundtrip(data: Seq<u8>)
    requires
        0 < data.len() <= u64::MAX,
    ensures
        snap_read_result(frame_bytes(fresh_digest(), data)) == Ok::<Seq<u8>, Error>(data),
{
    lemma_frame_roundtrip(fresh_digest(), data);
    assert(frame_bytes(fresh_digest(), data).len() > 0);
}

/// The name of the file that holds the snapshot at `index` taken in `term`.
pub open spec fn spec_snap_file_name(index: u64, term: u64) -> Seq<char> {
    decimal(index as nat) + "-"@ + decimal(term as nat) + ".snap"@
}

/// The name of the file that holds the snapshot at `index` taken in `term`:
/// `<index>-<term>.snap`, both numbers in decimal.
pub fn snap_file_name(index: u64, term: u64) -> (r: String)
    ensures
        r@ == spec_snap_file_name(index, term),
{
    let mut s = u64_to_decimal(index);
    s.append("-");
    s.append(u64_to_decimal(term).as_str());
    s.append(".snap");
    s
}

proof fn lemma_decimal_starts_with_digit(n: nat)
    ensures
        decimal(n).len() > 0,
        '0' <= decimal(n)[0] <= '9',
    decreases n,
{
    if n >= 10 {
        lemma_decimal_starts_with_digit(n / 10);
        assert(decimal(n) == decimal(n / 10).push(digit_char(n % 10)));
    }
}

/// A saved snapshot's file is one that listing the snapshot directory keeps: its name
/// ends with `.snap`, it is no leftover of a defragmentation, and it is no snapshot
/// database file.
pub proof fn law_saved_snapshot_is_listed(index: u64, term: u64)
    ensures
        ".snap"@.is_suffix_of(spec_snap_file_name(index, term)),
        !is_defrag_leftover(spec_snap_file_name(index, term)),
        !is_snap_db(spec_snap_file_name(index, term)),
{
    let name = spec_snap_file_name(index, term);
    reveal_strlit(".snap");
    reveal_strlit(".snap.db");
    reveal_strlit("db.tmp");
    reveal_strlit("-");
    lemma_decimal_starts_with_digit(index as nat);
    let tail = ".snap"@;
    assert(name.subrange(name.len() - 5, name.len() as int) =~= tail);
    assert(name[0] == decimal(index as nat)[0]);
    assert(name.last() == 'p');
    if ".snap.db"@.is_suffix_of(name) {
        assert(name.last() == ".snap.db"@.last());
    }
    if "db.tmp"@.is_prefix_of(name) {
        assert(name[0] == "db.tmp"@[0]);
    }
}

/// `s` with every trailing copy of `suffix` removed, as `str::trim_end_matches` does.
pub open spec fn strip_suffixes(s: Seq<char>, suffix: Seq<char>) -> Seq<char>
    decreases s.len(),
{
    if suffix.len() > 0 && suffix.is_suffix_of(s) {
        strip_suffixes(s.subrange(0, s.len() - suffix.len()), suffix)
    } else {
        s
    }
}

/// Removes every trailing copy of `suffix` from `s`.
pub fn trim_end_matches(s: &str, suffix: &str) -> (r: String)
    ensures
        r@ == strip_suffixes(s@, suffix@),
{
    let cs = chars_of(s);
    let sf = chars_of(suffix);
    let m = sf.len();
    let mut end = cs.len();
    assert(s@.subrange(0, end as int) =~= s@);
    while m > 0 && m <= end && suffix_at(&cs, &sf, end)
        invariant
            cs@ == s@,
            sf@ == suffix@,
            m == sf@.len(),
            end <= cs@.len(),
            strip_suffixes(s@, suffix@) == strip_suffixes(s@.subrange(0, end as int), suffix@),
        decreases end,
    {
        proof {
            let t = s@.subrange(0, end as int);
            assert(suffix@.is_suffix_of(t)) by {
                assert(suffix@ =~= t.subrange(t.len() - suffix@.len(), t.len() as int));
            }
            assert(t.subrange(0, t.len() - suffix@.len()) =~= s@.subrange(0, end - m));
        }
        end = end - m;
    }
    proof {
        let t = s@.subrange(0, end as int);
        if m > 0 && m <= end {
            assert(!suffix@.is_suffix_of(t)) by {
                if suffix@.is_suffix_of(t) {
                    assert forall|j: int| 0 <= j < m implies cs@[end - m + j] == sf@[j] by {
                        assert(t.subrange(t.len() - suffix@.len(), t.len() as int)[j] == t[end - m
                            + j]);
                    }
                }
            }
        }
    }
    let slice = vstd::slice::slice_subrange(cs.as_slice(), 0, end);
    string_of(slice)
}

/// Whether `sf` occurs in `cs` ending at position `end`.
fn suffix_at(cs: &Vec<char>, sf: &Vec<char>, end: usize) -> (r: bool)
    requires
        sf@.len() <= end <= cs@.len(),
    ensures
        r == (forall|j: int| 0 <= j < sf@.len() ==> cs@[end - sf@.len() + j] == sf@[j]),
{
    let m = sf.len();
    let mut j: usize = 0;
    while j < m
        invariant
            m == sf@.len(),
            m <= end <= cs@.len(),
            j <= m,
            forall|k: int| 0 <= k < j ==> cs@[end - m + k] == sf@[k],
        decreases m - j,
    {
        if cs[end - m + j] != sf[j] {
            return false;
        }
        j = j + 1;
    }
    true
}

/// The snapshot file names among `names`: those that end with `.snap`.
pub open spec fn snap_file_names(names: Seq<String>) -> Seq<Seq<char>>
    decreases names.len(),
{
    if names.len() == 0 {
        Seq::empty()
    } else {
        let rest = snap_file_names(names.drop_last());
        if ".snap"@.is_suffix_of(names.last()@) {
            rest.push(names.last()@)
        } else {
            rest
        }
    }
}

/// Keeps the names that end with `.snap`, in their order.
pub fn check_suffix(names: Vec<String>) -> (r: Result<Vec<String>, std::io::Error>)
    ensures
        r matches Ok(v) && v@.map_values(|s: String| s@) == snap_file_names(names@),
{
    let mut snaps: Vec<String> = Vec::new();
    let n = names.len();
    let mut i: usize = 0;
    while i < n
        invariant
            n == names@.len(),
            i <= n,
            snaps@.map_values(|s: String| s@) == snap_file_names(names@.subrange(0, i as int)),
        decreases n - i,
    {
        let name = &names[i];
        proof {
            assert(names@.subrange(0, i + 1).drop_last() =~= names@.subrange(0, i as int));
        }
        if ends_with(name.as_str(), ".snap") {
            let ghost before = snaps@;
            snaps.push(name.clone());
            assert(snaps@.map_values(|s: String| s@) =~= before.map_values(|s: String| s@).push(
                name@,
            ));
        }
        i = i + 1;
    }
    assert(names@.subrange(0, n as int) =~= names@);
    Ok(snaps)
}

/// A file that an interrupted defragmentation left behind: its name starts with
/// `db.tmp`.
pub open spec fn is_defrag_leftover(name: Seq<char>) -> bool {
    "db.tmp"@.is_prefix_of(name)
}

/// The names among `names` that are (`leftover`) or are not defragmentation leftovers,
/// in their order.
pub open spec fn names_where(names: Seq<String>, leftover: bool) -> Seq<Seq<char>>
    decreases names.len(),
{
    if names.len() == 0 {
        Seq::empty()
    } else {
        let rest = names_where(names.drop_last(), leftover);
        if is_defrag_leftover(names.last()@) == leftover {
            rest.push(names.last()@)
        } else {
            rest
        }
    }
}

/// Splits the names found in the snapshot directory into the defragmentation leftovers,
/// which are to be deleted, and the names to keep, both in their order.
pub fn cleanup_names(names: Vec<String>) -> (r: (Vec<String>, Vec<String>))
    ensures
        r.0@.map_values(|s: String| s@) == names_where(names@, true),
        r.1@.map_values(|s: String| s@) == names_where(names@, false),
{
    let mut gone: Vec<String> = Vec::new();
    let mut kept: Vec<String> = Vec::new();
    let n = names.len();
    let mut i: usize = 0;
    while i < n
        invariant
            n == names@.len(),
            i <= n,
            gone@.map_values(|s: String| s@) == names_where(names@.subrange(0, i as int), true),
            kept@.map_values(|s: String| s@) == names_where(names@.subrange(0, i as int), false),
        decreases n - i,
    {
        let name = &names[i];
        proof {
            assert(names@.subrange(0, i + 1).drop_last() =~= names@.subrange(0, i as int));
        }
        if starts_with(name.as_str(), "db.tmp") {
            let ghost before = gone@;
            gone.push(name.clone());
            assert(gone@.map_values(|s: String| s@) =~= before.map_values(|s: String| s@).push(
                name@,
            ));
        } else {
            let ghost before = kept@;
            kept.push(name.clone());
            assert(kept@.map_values(|s: String| s@) =~= before.map_values(|s: String| s@).push(
                name@,
            ));
        }
        i = i + 1;
    }
    assert(names@.subrange(0, n as int) =~= names@);
    (gone, kept)
}

/// A snapshot database file name: ends with `.snap.db`.
pub open spec fn is_snap_db(name: Seq<char>) -> bool {
    ".snap.db"@.is_suffix_of(name)
}

/// The index that a snapshot database file name carries: the decimal number in front
/// of the `.snap.db` suffix.
pub open spec fn snap_db_index(name: Seq<char>) -> Option<u64> {
    parse_radix(strip_suffixes(name, ".snap.db"@), 10)
}

/// The snapshot database files among `names` that are older than the snapshot at
/// `index`, in their order.
pub open spec fn released_snap_dbs(names: Seq<String>, index: u64) -> Seq<Seq<char>>
    decreases names.len(),
{
    if names.len() == 0 {
        Seq::empty()
    } else {
        let rest = released_snap_dbs(names.drop_last(), index);
        let name = names.last()@;
        if is_snap_db(name) && snap_db_index(name)->Some_0 < index {
            rest.push(name)
        } else {
            rest
        }
    }
}

/// Picks the snapshot database files that a snapshot at `index` makes obsolete: the
/// `<n>.snap.db` files with `n` below `index`.
pub fn snap_dbs_to_release(names: &Vec<String>, index: u64) -> (r: Vec<String>)
    requires
        forall|k: int|
            0 <= k < names@.len() && is_snap_db(#[trigger] names@[k]@) ==> snap_db_index(
                names@[k]@,
            ) is Some,
    ensures
        r@.map_values(|s: String| s@) == released_snap_dbs(names@, index),
{
    let mut out: Vec<String> = Vec::new();
    let n = names.len();
    let mut i: usize = 0;
    proof {
        reveal_strlit(".snap.db");
    }
    while i < n
        invariant
            n == names@.len(),
            i <= n,
            forall|k: int|
                0 <= k < names@.len() && is_snap_db(#[trigger] names@[k]@) ==> snap_db_index(
                    names@[k]@,
                ) is Some,
            out@.map_values(|s: String| s@) == released_snap_dbs(
                names@.subrange(0, i as int),
                index,
            ),
        decreases n - i,
    {
        let name = &names[i];
        proof {
            assert(names@.subrange(0, i + 1).drop_last() =~= names@.subrange(0, i as int));
            assert(names@.subrange(0, i + 1).last() == names@[i as int]);
        }
        if ends_with(name.as_str(), ".snap.db") {
            let stem = trim_end_matches(name.as_str(), ".snap.db");
            let v = parse_u64_radix(stem.as_str(), 10);
            assert(v == snap_db_index(names@[i as int]@));
            match v {
                Some(x) => {
                    if x < index {
                        let ghost before = out@;
                        out.push(name.clone());
                        assert(out@.map_values(|s: String| s@) =~= before.map_values(
                            |s: String| s@,
                        ).push(name@));
                    }
                },
                None => {},
            }
        }
        i = i + 1;
    }
    assert(names@.subrange(0, n as int) =~= names@);
    out
}

} // verus!
