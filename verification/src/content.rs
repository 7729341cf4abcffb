//! Byte-level building blocks of the namespace: the fixed synthetic file
//! contents, decimal rendering and parsing of item ids, and the clamped
//! byte-window read used by every regular file.

use vstd::prelude::*;
use vstd::string::StringSliceAdditionalSpecFns;

verus! {

/// The exact bytes of the desktop-link file.
pub open spec fn desktop_content() -> Seq<u8> {
    "[Desktop Entry]\nType=Link\nName=XKCD\nURL=https://xkcd.com/\n".spec_bytes()
}

/// The exact bytes of the about file.
pub open spec fn about_content() -> Seq<u8> {
    "xkcdfs is an unaffiliated fan project for looking at xkcd comics.\n\nxkcd is by Randall Munroe.\n".spec_bytes()
}

/// The desktop-link file's content.
pub fn desktop_bytes() -> (v: Vec<u8>)
    ensures
        v@ == desktop_content(),
{
    let s: &str = "[Desktop Entry]\nType=Link\nName=XKCD\nURL=https://xkcd.com/\n";
    vstd::slice::slice_to_vec(s.as_bytes())
}

/// The about file's content.
pub fn about_bytes() -> (v: Vec<u8>)
    ensures
        v@ == about_content(),
{
    let s: &str =
        "xkcdfs is an unaffiliated fan project for looking at xkcd comics.\n\nxkcd is by Randall Munroe.\n";
    vstd::slice::slice_to_vec(s.as_bytes())
}

/// Whether `b` is the code of a decimal digit.
pub open spec fn is_digit(b: u8) -> bool {
    48 <= b <= 57
}

/// Whether every byte of `s` is a decimal digit.
pub open spec fn all_digits(s: Seq<u8>) -> bool {
    forall|i: int| 0 <= i < s.len() ==> is_digit(#[trigger] s[i])
}

/// The number denoted by a digit string, most significant digit first.
/// Meaningful only when `all_digits(s)` holds.
pub open spec fn digits_value(s: Seq<u8>) -> int
    decreases s.len(),
{
    if s.len() == 0 {
        0
    } else {
        digits_value(s.drop_last()) * 10 + (s.last() - 48)
    }
}

/// The decimal rendering of `n`, without a sign and without leading zeros
/// (except for the single digit of zero itself).
pub open spec fn decimal_digits(n: nat) -> Seq<u8>
    decreases n,
{
    if n < 10 {
        seq![(n + 48) as u8]
    } else {
        decimal_digits(n / 10).push((n % 10 + 48) as u8)
    }
}

/// Renders `n` as decimal digit bytes.
pub fn render_decimal(n: u64) -> (v: Vec<u8>)
    ensures
        v@ == decimal_digits(n as nat),
    decreases n,
{
    if n < 10 {
        let mut v: Vec<u8> = Vec::new();
        v.push((n as u8) + 48);
        proof {
            assert(v@ =~= decimal_digits(n as nat));
        }
        v
    } else {
        let mut v = render_decimal(n / 10);
        v.push((n % 10) as u8 + 48);
        proof {
            assert(v@ =~= decimal_digits(n as nat));
        }
        v
    }
}

/// Extending a digit string by one digit multiplies its value by ten and
/// adds the new digit.
proof fn lemma_digits_value_step(s: Seq<u8>, i: int)
    requires
        0 <= i < s.len(),
    ensures
        digits_value(s.subrange(0, i + 1)) == digits_value(s.subrange(0, i)) * 10 + (s[i] - 48),
{
    let t = s.subrange(0, i + 1);
    assert(t.drop_last() =~= s.subrange(0, i));
    assert(t.last() == s[i]);
}

/// On an all-digit string, the value of a prefix never exceeds the value of
/// the whole.
proof fn lemma_digits_value_monotone(s: Seq<u8>, i: int)
    requires
        0 <= i <= s.len(),
        all_digits(s),
    ensures
        digits_value(s) >= digits_value(s.subrange(0, i)) >= 0,
    decreases s.len() - i,
{
    if i == s.len() {
        assert(s.subrange(0, i) =~= s);
        lemma_digits_value_nonneg(s, i);
    } else {
        lemma_digits_value_step(s, i);
        lemma_digits_value_nonneg(s, i);
        lemma_digits_value_monotone(s, i + 1);
    }
}

/// The value of an all-digit prefix is not negative.
proof fn lemma_digits_value_nonneg(s: Seq<u8>, i: int)
    requires
        0 <= i <= s.len(),
        all_digits(s),
    ensures
        digits_value(s.subrange(0, i)) >= 0,
    decreases i,
{
    if i > 0 {
        lemma_digits_value_step(s, i - 1);
        lemma_digits_value_nonneg(s, i - 1);
    } else {
        assert(s.subrange(0, 0).len() == 0);
    }
}

/// Parses a byte string as a decimal number. Returns `Some(n)` exactly when
/// the string is nonempty, consists of digits alone, and its value fits in a
/// `u64`; leading zeros are accepted, a sign is not.
pub fn parse_decimal(name: &[u8]) -> (r: Option<u64>)
    ensures
        match r {
            Some(n) => name@.len() > 0 && all_digits(name@) && digits_value(name@) == n as int,
            None => name@.len() == 0 || !all_digits(name@) || digits_value(name@) > u64::MAX,
        },
{
    if name.len() == 0 {
        return None;
    }
    let mut acc: u64 = 0;
    let mut i: usize = 0;
    while i < name.len()
        invariant
            0 <= i <= name@.len(),
            all_digits(name@.subrange(0, i as int)),
            acc as int == digits_value(name@.subrange(0, i as int)),
        decreases name@.len() - i,
    {
        let b: u8 = *vstd::slice::slice_index_get(name, i);
        if b < 48 || b > 57 {
            assert(!is_digit(name@[i as int]));
            return None;
        }
        let d: u64 = (b - 48) as u64;
        if acc > (u64::MAX - d) / 10 {
            proof {
                lemma_digits_value_step(name@, i as int);
                assert(acc * 10 + d > u64::MAX) by (nonlinear_arith)
                    requires
                        acc > (u64::MAX - d) / 10,
                        0 <= d <= 9,
                        0 <= acc <= u64::MAX,
                ;
                if all_digits(name@) {
                    lemma_digits_value_monotone(name@, i as int + 1);
                }
            }
            return None;
        }
        proof {
            lemma_digits_value_step(name@, i as int);
            assert(acc * 10 + d <= u64::MAX) by (nonlinear_arith)
                requires
                    acc <= (u64::MAX - d) / 10,
                    0 <= d <= 9,
                    0 <= acc,
            ;
        }
        acc = acc * 10 + d;
        i = i + 1;
    }
    proof {
        assert(name@.subrange(0, name@.len() as int) =~= name@);
    }
    Some(acc)
}

/// The clamped window `[offset, min(offset + len, content length))` of a
/// file's bytes; the window starting at or past the end is empty.
/// Meaningful only for `offset >= 0`.
pub open spec fn window_of(s: Seq<u8>, offset: int, len: int) -> Seq<u8> {
    if offset >= s.len() {
        Seq::empty()
    } else if offset + len <= s.len() {
        s.subrange(offset, offset + len)
    } else {
        s.subrange(offset, s.len() as int)
    }
}

/// Reads the byte window `[offset, offset + size)` of `data`, clamped to the
/// content: a negative offset is rejected, an offset at or past the end
/// yields an empty result, and otherwise exactly
/// `min(size, data.len() - offset)` bytes starting at `offset` come back.
pub fn read_window(data: &[u8], offset: i64, size: u32) -> (r: Result<Vec<u8>, crate::fs::FsError>)
    ensures
        r is Err <==> offset < 0,
        offset < 0 ==> r == Err::<Vec<u8>, crate::fs::FsError>(crate::fs::FsError::InvalidArgument),
        offset >= 0 ==> (r matches Ok(v) && v@ == window_of(data@, offset as int, size as int)),
{
    if offset < 0 {
        return Err(crate::fs::FsError::InvalidArgument);
    }
    let off_u: u64 = offset as u64;
    let len_u: u64 = data.len() as u64;
    if off_u >= len_u {
        return Ok(Vec::new());
    }
    let off: usize = off_u as usize;
    let remaining: u64 = len_u - off_u;
    let take: u64 = if (size as u64) <= remaining {
        size as u64
    } else {
        remaining
    };
    let end: usize = off + take as usize;
    let out = vstd::slice::slice_to_vec(vstd::slice::slice_subrange(data, off, end));
    proof {
        assert(out@ =~= window_of(data@, offset as int, size as int));
    }
    Ok(out)
}

} // verus!
