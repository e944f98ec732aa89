//! Low-level wire primitives: big-endian 64-bit length words and
//! length-prefixed byte fields, with exact round-trip contracts.

use vstd::prelude::*;

verus! {

/// The integer denoted by eight big-endian bytes.
pub open spec fn u64_of_bytes(s: Seq<u8>) -> int
    recommends
        s.len() == 8,
{
    s[0] * 0x100000000000000 + s[1] * 0x1000000000000 + s[2] * 0x10000000000
        + s[3] * 0x100000000 + s[4] * 0x1000000 + s[5] * 0x10000 + s[6] * 0x100 + s[7]
}

/// The eight big-endian bytes of a 64-bit integer.
pub open spec fn u64_to_bytes(x: u64) -> Seq<u8> {
    seq![
        (x / 0x100000000000000 % 0x100) as u8,
        (x / 0x1000000000000 % 0x100) as u8,
        (x / 0x10000000000 % 0x100) as u8,
        (x / 0x100000000 % 0x100) as u8,
        (x / 0x1000000 % 0x100) as u8,
        (x / 0x10000 % 0x100) as u8,
        (x / 0x100 % 0x100) as u8,
        (x % 0x100) as u8,
    ]
}

/// Writing a 64-bit word big-endian and reading it back yields the word.
pub proof fn lemma_u64_round_trip(x: u64)
    ensures
        u64_of_bytes(u64_to_bytes(x)) == x,
{
    let s = u64_to_bytes(x);
    assert(s[0] == (x / 0x100000000000000 % 0x100) as u8);
    assert((x / 0x100000000000000 % 0x100) as u8 as int * 0x100000000000000
        + (x / 0x1000000000000 % 0x100) as u8 as int * 0x1000000000000
        + (x / 0x10000000000 % 0x100) as u8 as int * 0x10000000000
        + (x / 0x100000000 % 0x100) as u8 as int * 0x100000000
        + (x / 0x1000000 % 0x100) as u8 as int * 0x1000000
        + (x / 0x10000 % 0x100) as u8 as int * 0x10000
        + (x / 0x100 % 0x100) as u8 as int * 0x100
        + (x % 0x100) as u8 as int == x) by (bit_vector);
}

/// Appends the eight big-endian bytes of `x` to `out`.
pub fn push_u64(out: &mut Vec<u8>, x: u64)
    ensures
        final(out)@ == old(out)@ + u64_to_bytes(x),
{
    let ghost n = out@.len();
    out.push((x / 0x100000000000000 % 0x100) as u8);
    out.push((x / 0x1000000000000 % 0x100) as u8);
    out.push((x / 0x10000000000 % 0x100) as u8);
    out.push((x / 0x100000000 % 0x100) as u8);
    out.push((x / 0x1000000 % 0x100) as u8);
    out.push((x / 0x10000 % 0x100) as u8);
    out.push((x / 0x100 % 0x100) as u8);
    out.push((x % 0x100) as u8);
    proof {
        assert(out@ =~= old(out)@ + u64_to_bytes(x));
    }
}

/// Reads the eight big-endian bytes of `s` starting at `pos`.
pub fn read_u64(s: &Vec<u8>, pos: usize) -> (r: u64)
    requires
        pos + 8 <= s@.len(),
    ensures
        r == u64_of_bytes(s@.subrange(pos as int, pos + 8)),
{
    let slen: usize = s.len();
    let b0 = s[pos];
    let b1 = s[pos + 1];
    let b2 = s[pos + 2];
    let b3 = s[pos + 3];
    let b4 = s[pos + 4];
    let b5 = s[pos + 5];
    let b6 = s[pos + 6];
    let b7 = s[pos + 7];
    let r: u64 = (b0 as u64) * 0x100000000000000 + (b1 as u64) * 0x1000000000000 + (b2 as u64)
        * 0x10000000000 + (b3 as u64) * 0x100000000 + (b4 as u64) * 0x1000000 + (b5 as u64)
        * 0x10000 + (b6 as u64) * 0x100 + (b7 as u64);
    proof {
        let sub = s@.subrange(pos as int, pos + 8);
        assert(sub[0] == b0 && sub[1] == b1 && sub[2] == b2 && sub[3] == b3 && sub[4] == b4
            && sub[5] == b5 && sub[6] == b6 && sub[7] == b7);
    }
    r
}

/// Appends all of `data` to `out`.
pub fn push_bytes(out: &mut Vec<u8>, data: &Vec<u8>)
    ensures
        final(out)@ == old(out)@ + data@,
{
    let mut i: usize = 0;
    while i < data.len()
        invariant
            i <= data@.len(),
            out@ == old(out)@ + data@.subrange(0, i as int),
        decreases data@.len() - i,
    {
        out.push(data[i]);
        i = i + 1;
        proof {
            assert(out@ =~= old(out)@ + data@.subrange(0, i as int));
        }
    }
    proof {
        assert(data@.subrange(0, data@.len() as int) =~= data@);
    }
}

/// The wire form of one field: an eight-byte big-endian length, then the
/// field's bytes.
pub open spec fn field_bytes(data: Seq<u8>) -> Seq<u8> {
    u64_to_bytes(data.len() as u64) + data
}

/// Appends the length-prefixed form of `data` to `out`.
pub fn push_field(out: &mut Vec<u8>, data: &Vec<u8>)
    requires
        data@.len() <= u64::MAX,
    ensures
        final(out)@ == old(out)@ + field_bytes(data@),
{
    push_u64(out, data.len() as u64);
    push_bytes(out, data);
    proof {
        assert(out@ =~= old(out)@ + field_bytes(data@));
    }
}

/// Copies `n` bytes of `s` starting at `pos`.
pub fn read_bytes(s: &Vec<u8>, pos: usize, n: usize) -> (r: Vec<u8>)
    requires
        pos + n <= s@.len(),
    ensures
        r@ == s@.subrange(pos as int, pos + n),
{
    let slen: usize = s.len();
    let mut r: Vec<u8> = Vec::new();
    let mut i: usize = 0;
    while i < n
        invariant
            i <= n,
            pos + n <= slen == s@.len(),
            r@ == s@.subrange(pos as int, pos + i),
        decreases n - i,
    {
        r.push(s[pos + i]);
        i = i + 1;
        proof {
            assert(r@ =~= s@.subrange(pos as int, pos + i));
        }
    }
    r
}

/// Reads one length-prefixed field of `s` starting at `pos`. Returns the
/// field's bytes and the position just past them, or `None` when no whole
/// field stands at `pos`.
pub fn read_field(s: &Vec<u8>, pos: usize) -> (r: Option<(Vec<u8>, usize)>)
    requires
        pos <= s@.len(),
    ensures
        match r {
            Some((data, end)) => {
                &&& pos + 8 <= end <= s@.len()
                &&& data@ == s@.subrange(pos + 8, end as int)
                &&& data@.len() == end - pos - 8
                &&& s@.subrange(pos as int, end as int) == field_bytes(data@)
            },
            None => forall|data: Seq<u8>, end: int|
                pos <= end <= s@.len() ==> s@.subrange(pos as int, end) != field_bytes(data),
        },
{
    let slen: usize = s.len();
    if slen - pos < 8 {
        proof {
            assert forall|data: Seq<u8>, end: int| pos <= end <= s@.len() implies s@.subrange(
                pos as int,
                end,
            ) != field_bytes(data) by {
                assert(field_bytes(data).len() >= 8);
            }
        }
        return None;
    }
    let len = read_u64(s, pos);
    if len > (slen - pos - 8) as u64 {
        proof {
            assert forall|data: Seq<u8>, end: int| pos <= end <= s@.len() implies s@.subrange(
                pos as int,
                end,
            ) != field_bytes(data) by {
                if s@.subrange(pos as int, end) == field_bytes(data) {
                    let sub = s@.subrange(pos as int, end);
                    assert(sub.len() == 8 + data.len());
                    assert(data.len() == end - pos - 8 <= slen - pos - 8);
                    assert(data.len() <= u64::MAX);
                    assert(s@.subrange(pos as int, pos + 8) =~= u64_to_bytes(
                        data.len() as u64,
                    )) by {
                        assert(forall|i: int|
                            0 <= i < 8 ==> s@.subrange(pos as int, pos + 8)[i] == sub[i] && sub[i]
                                == u64_to_bytes(data.len() as u64)[i]);
                    }
                    lemma_u64_round_trip(data.len() as u64);
                    assert(len == data.len());
                }
            }
        }
        return None;
    }
    let n = len as usize;
    let data = read_bytes(s, pos + 8, n);
    proof {
        let sub = s@.subrange(pos as int, pos + 8 + n);
        lemma_u64_round_trip(n as u64);
        assert(u64_of_bytes(s@.subrange(pos as int, pos + 8)) == n);
        assert(s@.subrange(pos as int, pos + 8) =~= u64_to_bytes(n as u64)) by {
            let a = s@.subrange(pos as int, pos + 8);
            let b = u64_to_bytes(n as u64);
            assert(u64_of_bytes(a) == u64_of_bytes(b));
            lemma_u64_bytes_injective(a, b);
        }
        assert(sub =~= u64_to_bytes(n as u64) + data@);
    }
    Some((data, pos + 8 + n))
}

/// Two eight-byte strings denoting the same integer are equal.
pub proof fn lemma_u64_bytes_injective(a: Seq<u8>, b: Seq<u8>)
    requires
        a.len() == 8,
        b.len() == 8,
        u64_of_bytes(a) == u64_of_bytes(b),
    ensures
        a == b,
{
    let a0 = a[0];
    let a1 = a[1];
    let a2 = a[2];
    let a3 = a[3];
    let a4 = a[4];
    let a5 = a[5];
    let a6 = a[6];
    let a7 = a[7];
    let b0 = b[0];
    let b1 = b[1];
    let b2 = b[2];
    let b3 = b[3];
    let b4 = b[4];
    let b5 = b[5];
    let b6 = b[6];
    let b7 = b[7];
    assert((a0 as int) * 0x100000000000000 + (a1 as int) * 0x1000000000000 + (a2 as int)
        * 0x10000000000 + (a3 as int) * 0x100000000 + (a4 as int) * 0x1000000 + (a5 as int)
        * 0x10000 + (a6 as int) * 0x100 + (a7 as int) == (b0 as int) * 0x100000000000000 + (
    b1 as int) * 0x1000000000000 + (b2 as int) * 0x10000000000 + (b3 as int) * 0x100000000 + (
    b4 as int) * 0x1000000 + (b5 as int) * 0x10000 + (b6 as int) * 0x100 + (b7 as int) ==> (a0
        == b0 && a1 == b1 && a2 == b2 && a3 == b3 && a4 == b4 && a5 == b5 && a6 == b6 && a7
        == b7)) by (bit_vector);
    assert(a =~= b);
}

/// Whether two byte vectors hold the same bytes.
pub fn bytes_eq(a: &Vec<u8>, b: &Vec<u8>) -> (r: bool)
    ensures
        r == (a@ == b@),
{
    if a.len() != b.len() {
        proof {
            assert(a@ != b@);
        }
        return false;
    }
    let mut i: usize = 0;
    while i < a.len()
        invariant
            i <= a@.len(),
            a@.len() == b@.len(),
            forall|j: int| 0 <= j < i ==> a@[j] == b@[j],
        decreases a@.len() - i,
    {
        if a[i] != b[i] {
            proof {
                assert(a@[i as int] != b@[i as int]);
            }
            return false;
        }
        i = i + 1;
    }
    proof {
        assert(a@ =~= b@);
    }
    true
}

} // verus!
