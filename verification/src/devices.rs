//! Hardware names and drives: the CPU brand string, the display adapter
//! name, the list of logical drive roots and which drives are listed. The
//! application makes the system calls that produce the raw values.
use vstd::prelude::*;
use vstd::utf8::{decode_utf8, valid_utf8};
use crate::gauge::push_all;
use crate::text::{nul_trimmed, trim, trim_nul, trimmed};

verus! {

broadcast use vstd::string::group_string_axioms;

/// `std::str::from_utf8`: succeeds exactly on well-formed UTF-8 (no
/// overlong forms, no surrogates, nothing above U+10FFFF, as vstd's
/// `valid_utf8` states it) and then yields the decoded characters.
#[verifier::external_body]
pub(crate) fn utf8_to_string(bytes: &[u8]) -> (r: Option<String>)
    ensures
        r is Some <==> valid_utf8(bytes@),
        r matches Some(s) ==> s@ == decode_utf8(bytes@),
{
    match std::str::from_utf8(bytes) {
        Ok(s) => Some(s.to_string()),
        Err(_) => None,
    }
}

/// Name used when the CPU brand string cannot be read.
pub open spec fn cpu_fallback_name() -> Seq<char> {
    seq!['W', 'i', 'n', 'd', 'o', 'w', 's', ' ', 'P', 'r', 'o', 'c', 'e', 's', 's', 'o', 'r']
}

/// The CPU model shown for the raw brand bytes (as CPUID returns them): the
/// UTF-8 text without its NUL padding and surrounding white space, or the
/// fallback name when the bytes are not UTF-8 or the text is blank.
pub open spec fn cpu_model_text(brand: Seq<u8>) -> Seq<char> {
    if valid_utf8(brand) && trimmed(nul_trimmed(decode_utf8(brand))).len() > 0 {
        trimmed(nul_trimmed(decode_utf8(brand)))
    } else {
        cpu_fallback_name()
    }
}

/// The CPU model name from the raw brand bytes.
pub fn cpu_model_from_brand(brand: &[u8]) -> (r: String)
    ensures
        r@ == cpu_model_text(brand@),
{
    if let Some(text) = utf8_to_string(brand) {
        let stripped = trim_nul(text.as_str());
        let t = trim(stripped.as_str());
        if t.as_str().unicode_len() > 0 {
            return t;
        }
    }
    let mut out = String::new();
    push_all(
        &mut out,
        &['W', 'i', 'n', 'd', 'o', 'w', 's', ' ', 'P', 'r', 'o', 'c', 'e', 's', 's', 'o', 'r'],
    );
    assert(out@ =~= cpu_fallback_name());
    out
}

/// Name used when the display adapter cannot be named.
pub open spec fn gpu_fallback_name() -> Seq<char> {
    seq!['G', 'P', 'U', ' ', '(', 'W', 'D', 'D', 'M', ' ', 'A', 'd', 'a', 'p', 't', 'e', 'r', ')']
}

/// The display adapter name shown for the raw device string: trimmed, or
/// the fallback name when blank.
pub open spec fn adapter_name_text(raw: Seq<char>) -> Seq<char> {
    if trimmed(raw).len() > 0 {
        trimmed(raw)
    } else {
        gpu_fallback_name()
    }
}

/// The display adapter name from the raw device string.
pub fn adapter_name(raw: &str) -> (r: String)
    ensures
        r@ == adapter_name_text(raw@),
{
    let t = trim(raw);
    if t.as_str().unicode_len() > 0 {
        return t;
    }
    let mut out = String::new();
    push_all(
        &mut out,
        &['G', 'P', 'U', ' ', '(', 'W', 'D', 'D', 'M', ' ', 'A', 'd', 'a', 'p', 't', 'e', 'r', ')'],
    );
    assert(out@ =~= gpu_fallback_name());
    out
}

// ---------------------------------------------------------------------------
// Drives.
// ---------------------------------------------------------------------------

/// The NUL-terminated, non-empty strings of `units` (what
/// `GetLogicalDriveStringsW` fills in), in order; units after the last NUL
/// are not a string.
pub open spec fn drive_strings(units: Seq<u16>) -> Seq<Seq<u16>>
    decreases units.len(),
{
    if units.len() == 0 {
        Seq::empty()
    } else {
        let earlier = drive_strings(units.drop_last());
        if units.last() == 0 {
            let start = last_nul_before(units.drop_last());
            let piece = units.subrange(start, units.len() - 1);
            if piece.len() > 0 {
                earlier.push(piece)
            } else {
                earlier
            }
        } else {
            earlier
        }
    }
}

/// The position just after the last NUL of `units`, 0 when there is none.
pub open spec fn last_nul_before(units: Seq<u16>) -> int
    decreases units.len(),
{
    if units.len() == 0 {
        0
    } else if units.last() == 0 {
        units.len() as int
    } else {
        last_nul_before(units.drop_last())
    }
}

proof fn lemma_last_nul_before_bounds(units: Seq<u16>)
    ensures
        0 <= last_nul_before(units) <= units.len(),
        forall|j: int| last_nul_before(units) <= j < units.len() ==> units[j] != 0,
    decreases units.len(),
{
    if units.len() > 0 && units.last() != 0 {
        lemma_last_nul_before_bounds(units.drop_last());
        assert forall|j: int| last_nul_before(units) <= j < units.len() implies units[j] != 0 by {
            if j < units.len() - 1 {
                assert(units[j] == units.drop_last()[j]);
            }
        }
    }
}

/// Splits the first `len` units of the buffer filled by
/// `GetLogicalDriveStringsW` into the drive root strings.
pub fn split_drive_strings(buffer: &[u16], len: usize) -> (r: Vec<Vec<u16>>)
    requires
        len <= buffer@.len(),
    ensures
        r@.len() == drive_strings(buffer@.take(len as int)).len(),
        forall|k: int|
            0 <= k < r@.len() ==> #[trigger] r@[k]@ == drive_strings(buffer@.take(len as int))[k],
{
    let mut out: Vec<Vec<u16>> = Vec::new();
    let mut start: usize = 0;
    let mut i: usize = 0;
    while i < len
        invariant
            i <= len <= buffer@.len(),
            start as int == last_nul_before(buffer@.take(i as int)),
            out@.len() == drive_strings(buffer@.take(i as int)).len(),
            forall|k: int|
                0 <= k < out@.len() ==> #[trigger] out@[k]@ == drive_strings(buffer@.take(i as int))[k],
        decreases len - i,
    {
        proof {
            assert(buffer@.take(i + 1).drop_last() =~= buffer@.take(i as int));
            lemma_last_nul_before_bounds(buffer@.take(i as int));
        }
        if buffer[i] == 0 {
            if start < i {
                let mut piece: Vec<u16> = Vec::new();
                let mut j = start;
                while j < i
                    invariant
                        start <= j <= i < buffer@.len(),
                        piece@ == buffer@.subrange(start as int, j as int),
                    decreases i - j,
                {
                    piece.push(buffer[j]);
                    j = j + 1;
                    assert(piece@ =~= buffer@.subrange(start as int, j as int));
                }
                assert(piece@ =~= buffer@.take(i + 1).subrange(start as int, i as int));
                out.push(piece);
            }
            start = i + 1;
        }
        i = i + 1;
    }
    out
}

/// `GetDriveTypeW` codes of the drives that are listed: fixed (3) and
/// removable (2).
pub open spec fn is_listed_drive_type(drive_type: u32) -> bool {
    drive_type == 3 || drive_type == 2
}

/// The buffer holding `pieces` one after another, each followed by a NUL.
pub open spec fn nul_joined(pieces: Seq<Seq<u16>>) -> Seq<u16>
    decreases pieces.len(),
{
    if pieces.len() == 0 {
        Seq::empty()
    } else {
        nul_joined(pieces.drop_last()) + pieces.last() + seq![0u16]
    }
}

/// `p` holds no NUL.
pub open spec fn nul_free(p: Seq<u16>) -> bool {
    forall|k: int| 0 <= k < p.len() ==> #[trigger] p[k] != 0
}

proof fn lemma_nul_free_suffix(u: Seq<u16>, p: Seq<u16>)
    requires
        nul_free(p),
    ensures
        last_nul_before(u + p) == last_nul_before(u),
        drive_strings(u + p) == drive_strings(u),
    decreases p.len(),
{
    if p.len() == 0 {
        assert(u + p =~= u);
    } else {
        lemma_nul_free_suffix(u, p.drop_last());
        assert((u + p).drop_last() =~= u + p.drop_last());
        assert((u + p).last() == p.last());
    }
}

/// A buffer of NUL-terminated drive names splits back into those names,
/// provided none is empty or holds a NUL.
pub proof fn law_drive_strings_split_joined(pieces: Seq<Seq<u16>>)
    requires
        forall|i: int| 0 <= i < pieces.len() ==> (#[trigger] pieces[i]).len() > 0 && nul_free(
            pieces[i],
        ),
    ensures
        drive_strings(nul_joined(pieces)) == pieces,
    decreases pieces.len(),
{
    if pieces.len() > 0 {
        let rest = pieces.drop_last();
        let p = pieces.last();
        assert forall|i: int| 0 <= i < rest.len() implies (#[trigger] rest[i]).len() > 0 && nul_free(
            rest[i],
        ) by {
            assert(rest[i] == pieces[i]);
        }
        law_drive_strings_split_joined(rest);
        let u = nul_joined(rest);
        assert(nul_free(p)) by {
            assert(pieces[pieces.len() - 1] == p);
        }
        lemma_nul_free_suffix(u, p);
        let b = u + p + seq![0u16];
        assert(b.drop_last() =~= u + p);
        assert(b.last() == 0);
        assert(last_nul_before(u) == u.len()) by {
            if rest.len() > 0 {
                assert(u.last() == 0);
            }
        }
        assert(b.subrange(u.len() as int, b.len() - 1) =~= p);
        assert(pieces =~= rest.push(p));
    }
}

/// Whether a drive of this `GetDriveTypeW` code is listed (its space is
/// only queried then).
pub fn is_listed_drive(drive_type: u32) -> (r: bool)
    ensures
        r == is_listed_drive_type(drive_type),
{
    drive_type == 3 || drive_type == 2
}

/// Space of a listed drive.
#[derive(Debug, Clone, Copy, PartialEq, Eq, Structural)]
pub struct DriveSpace {
    pub total_bytes: u64,
    pub free_bytes: u64,
    pub used_bytes: u64,
}

/// The space shown for a drive, if it is listed: only fixed and removable
/// drives whose size query succeeded with a non-zero size; used space is the
/// size minus the free space (never below zero).
pub fn drive_space(drive_type: u32, query_ok: bool, total_bytes: u64, total_free_bytes: u64) -> (r:
    Option<DriveSpace>)
    ensures
        r == if is_listed_drive_type(drive_type) && query_ok && total_bytes > 0 {
            Some(
                DriveSpace {
                    total_bytes,
                    free_bytes: total_free_bytes,
                    used_bytes: if total_bytes >= total_free_bytes {
                        (total_bytes - total_free_bytes) as u64
                    } else {
                        0
                    },
                },
            )
        } else {
            None
        },
{
    if is_listed_drive(drive_type) && query_ok && total_bytes > 0 {
        let used = if total_bytes >= total_free_bytes {
            total_bytes - total_free_bytes
        } else {
            0
        };
        Some(DriveSpace { total_bytes, free_bytes: total_free_bytes, used_bytes: used })
    } else {
        None
    }
}

} // verus!
