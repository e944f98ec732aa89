//! The identity-layer data model: account references, kind digests, and
//! transport addresses, with their canonical byte and text forms.

use vstd::prelude::*;
use crate::codec::read_bytes;
use crate::errors::IpiisError;

verus! {

/// Width in bytes of an account reference (an Ed25519 public key) and of a
/// kind digest.
pub const ID_LEN: usize = 32;

/// The public identity of an account: its 32 public-key bytes.
#[derive(Debug)]
pub struct AccountId {
    bytes: Vec<u8>,
}

impl View for AccountId {
    type V = Seq<u8>;

    closed spec fn view(&self) -> Seq<u8> {
        self.bytes@
    }
}

impl AccountId {
    /// A well-formed reference holds exactly 32 bytes.
    pub open spec fn wf(&self) -> bool {
        self@.len() == ID_LEN
    }

    /// Wraps 32 raw public-key bytes; rejects any other length.
    pub fn from_bytes(bytes: Vec<u8>) -> (r: Result<AccountId, IpiisError>)
        ensures
            match r {
                Ok(id) => id@ == bytes@ && id.wf(),
                Err(e) => bytes@.len() != ID_LEN && e matches IpiisError::Parse,
            },
    {
        if bytes.len() == ID_LEN {
            Ok(AccountId { bytes })
        } else {
            Err(IpiisError::Parse)
        }
    }

    /// The raw public-key bytes.
    pub fn as_bytes(&self) -> (r: &Vec<u8>)
        ensures
            r@ == self@,
    {
        &self.bytes
    }

    /// A fresh copy of this reference.
    pub fn duplicate(&self) -> (r: AccountId)
        ensures
            r@ == self@,
            r.wf() == self.wf(),
    {
        let n = self.bytes.len();
        let bytes = read_bytes(&self.bytes, 0, n);
        proof {
            assert(bytes@ =~= self@);
        }
        AccountId { bytes }
    }

    /// Whether two references name the same account.
    pub fn same(&self, other: &AccountId) -> (r: bool)
        ensures
            r == (self@ == other@),
    {
        crate::codec::bytes_eq(&self.bytes, &other.bytes)
    }
}

/// An opaque namespace digest scoping routing entries.
#[derive(Debug)]
pub struct Kind {
    bytes: Vec<u8>,
}

impl View for Kind {
    type V = Seq<u8>;

    closed spec fn view(&self) -> Seq<u8> {
        self.bytes@
    }
}

impl Kind {
    /// A well-formed kind holds exactly 32 digest bytes.
    pub open spec fn wf(&self) -> bool {
        self@.len() == ID_LEN
    }

    /// Wraps 32 raw digest bytes; rejects any other length.
    pub fn from_bytes(bytes: Vec<u8>) -> (r: Result<Kind, IpiisError>)
        ensures
            match r {
                Ok(k) => k@ == bytes@ && k.wf(),
                Err(e) => bytes@.len() != ID_LEN && e matches IpiisError::Parse,
            },
    {
        if bytes.len() == ID_LEN {
            Ok(Kind { bytes })
        } else {
            Err(IpiisError::Parse)
        }
    }

    /// The raw digest bytes.
    pub fn as_bytes(&self) -> (r: &Vec<u8>)
        ensures
            r@ == self@,
    {
        &self.bytes
    }

    /// A fresh copy of this kind.
    pub fn duplicate(&self) -> (r: Kind)
        ensures
            r@ == self@,
            r.wf() == self.wf(),
    {
        let n = self.bytes.len();
        let bytes = read_bytes(&self.bytes, 0, n);
        proof {
            assert(bytes@ =~= self@);
        }
        Kind { bytes }
    }

    /// Whether two kinds are the same namespace.
    pub fn same(&self, other: &Kind) -> (r: bool)
        ensures
            r == (self@ == other@),
    {
        crate::codec::bytes_eq(&self.bytes, &other.bytes)
    }
}

/// An IPv4 socket address: the one-address form every routing value must
/// resolve to.
#[derive(Debug, Clone, Copy, PartialEq, Eq, Structural)]
pub struct Address {
    pub a: u8,
    pub b: u8,
    pub c: u8,
    pub d: u8,
    pub port: u16,
}

/// The canonical six-byte form of an address: the four octets, then the
/// port big-endian.
pub open spec fn addr_bytes(addr: Address) -> Seq<u8> {
    seq![addr.a, addr.b, addr.c, addr.d, (addr.port / 0x100) as u8, (addr.port % 0x100) as u8]
}

impl Address {
    /// Builds an address from its four octets and port.
    pub fn new(a: u8, b: u8, c: u8, d: u8, port: u16) -> (r: Address)
        ensures
            r == (Address { a, b, c, d, port }),
    {
        Address { a, b, c, d, port }
    }

    /// The canonical six-byte form.
    pub fn to_bytes(&self) -> (r: Vec<u8>)
        ensures
            r@ == addr_bytes(*self),
    {
        let mut r: Vec<u8> = Vec::new();
        r.push(self.a);
        r.push(self.b);
        r.push(self.c);
        r.push(self.d);
        r.push((self.port / 0x100) as u8);
        r.push((self.port % 0x100) as u8);
        proof {
            assert(r@ =~= addr_bytes(*self));
        }
        r
    }

    /// Reads an address back from its canonical six-byte form; rejects any
    /// other length.
    pub fn parse(bytes: &Vec<u8>) -> (r: Result<Address, IpiisError>)
        ensures
            match r {
                Ok(addr) => bytes@ == addr_bytes(addr),
                Err(e) => bytes@.len() != 6 && e matches IpiisError::Parse,
            },
    {
        if bytes.len() != 6 {
            return Err(IpiisError::Parse);
        }
        let port: u16 = (bytes[4] as u16) * 0x100 + (bytes[5] as u16);
        let addr = Address { a: bytes[0], b: bytes[1], c: bytes[2], d: bytes[3], port };
        proof {
            let hi = bytes@[4];
            let lo = bytes@[5];
            assert((port / 0x100) as u8 == hi && (port % 0x100) as u8 == lo) by (bit_vector)
                requires
                    port == (hi as u16) * 0x100 + (lo as u16),
            ;
            assert(bytes@ =~= addr_bytes(addr));
        }
        Ok(addr)
    }
}

/// Reading back the canonical byte form of any address yields that address.
pub proof fn lemma_addr_bytes_round_trip(addr: Address)
    ensures
        forall|other: Address| addr_bytes(addr) == addr_bytes(other) ==> addr == other,
{
    assert forall|other: Address| addr_bytes(addr) == addr_bytes(other) implies addr
        == other by {
        let s = addr_bytes(addr);
        let t = addr_bytes(other);
        assert(s[0] == t[0] && s[1] == t[1] && s[2] == t[2] && s[3] == t[3] && s[4] == t[4]
            && s[5] == t[5]);
        let p = addr.port;
        let q = other.port;
        assert((p / 0x100) as u8 == (q / 0x100) as u8 && (p % 0x100) as u8 == (q % 0x100) as u8
            ==> p == q) by (bit_vector);
    }
}

/// The sixteen hexadecimal digit characters.
pub open spec fn hex_digit(n: int) -> char {
    if n == 0 {
        '0'
    } else if n == 1 {
        '1'
    } else if n == 2 {
        '2'
    } else if n == 3 {
        '3'
    } else if n == 4 {
        '4'
    } else if n == 5 {
        '5'
    } else if n == 6 {
        '6'
    } else if n == 7 {
        '7'
    } else if n == 8 {
        '8'
    } else if n == 9 {
        '9'
    } else if n == 10 {
        'a'
    } else if n == 11 {
        'b'
    } else if n == 12 {
        'c'
    } else if n == 13 {
        'd'
    } else if n == 14 {
        'e'
    } else {
        'f'
    }
}

/// The lower-case hexadecimal text of a byte string, two digits per byte.
pub open spec fn hex_of(s: Seq<u8>) -> Seq<char> {
    Seq::new(s.len() * 2, |i: int| if i % 2 == 0 {
        hex_digit(s[i / 2] as int / 16)
    } else {
        hex_digit(s[i / 2] as int % 16)
    })
}

/// One hexadecimal digit as a one-character string slice.
fn hex_digit_str(n: u8) -> (r: &'static str)
    requires
        n < 16,
    ensures
        r@ == seq![hex_digit(n as int)],
{
    proof {
        reveal_strlit("0");
        reveal_strlit("1");
        reveal_strlit("2");
        reveal_strlit("3");
        reveal_strlit("4");
        reveal_strlit("5");
        reveal_strlit("6");
        reveal_strlit("7");
        reveal_strlit("8");
        reveal_strlit("9");
        reveal_strlit("a");
        reveal_strlit("b");
        reveal_strlit("c");
        reveal_strlit("d");
        reveal_strlit("e");
        reveal_strlit("f");
    }
    match n {
        0 => "0",
        1 => "1",
        2 => "2",
        3 => "3",
        4 => "4",
        5 => "5",
        6 => "6",
        7 => "7",
        8 => "8",
        9 => "9",
        10 => "a",
        11 => "b",
        12 => "c",
        13 => "d",
        14 => "e",
        _ => "f",
    }
}

/// The lower-case hexadecimal text of a byte string.
pub fn to_hex(bytes: &Vec<u8>) -> (r: String)
    ensures
        r@ == hex_of(bytes@),
{
    let mut r = String::new();
    let mut i: usize = 0;
    while i < bytes.len()
        invariant
            i <= bytes@.len(),
            r@ == hex_of(bytes@.subrange(0, i as int)),
        decreases bytes@.len() - i,
    {
        let b = bytes[i];
        r.append(hex_digit_str(b / 16));
        r.append(hex_digit_str(b % 16));
        i = i + 1;
        proof {
            assert(r@ =~= hex_of(bytes@.subrange(0, i as int)));
        }
    }
    proof {
        assert(bytes@.subrange(0, bytes@.len() as int) =~= bytes@);
    }
    r
}

/// The ASCII byte of a hexadecimal digit value: the ten digits, then the
/// lower-case letters.
pub open spec fn hex_digit_byte(n: int) -> u8 {
    if n < 10 {
        (48 + n) as u8
    } else {
        (87 + n) as u8
    }
}

/// The value a byte denotes as a lower-case hexadecimal digit, if any.
pub open spec fn hex_val(b: u8) -> Option<int> {
    if 48 <= b <= 57 {
        Some(b - 48)
    } else if 97 <= b <= 102 {
        Some(b - 87)
    } else {
        None
    }
}

/// The two maps invert each other on digit values.
pub proof fn lemma_hex_digit_byte_val(n: int)
    requires
        0 <= n < 16,
    ensures
        hex_val(hex_digit_byte(n)) == Some(n),
{
}

/// The lower-case hexadecimal text of a byte string, as ASCII bytes.
pub open spec fn hex_ascii(s: Seq<u8>) -> Seq<u8> {
    Seq::new(s.len() * 2, |i: int| if i % 2 == 0 {
        hex_digit_byte(s[i / 2] as int / 16)
    } else {
        hex_digit_byte(s[i / 2] as int % 16)
    })
}

/// One hexadecimal digit as its ASCII byte.
fn hex_digit_ascii(n: u8) -> (r: u8)
    requires
        n < 16,
    ensures
        r == hex_digit_byte(n as int),
{
    if n < 10 {
        48 + n
    } else {
        87 + n
    }
}

/// The lower-case hexadecimal text of a byte string, as ASCII bytes.
pub fn to_hex_bytes(bytes: &Vec<u8>) -> (r: Vec<u8>)
    ensures
        r@ == hex_ascii(bytes@),
{
    let mut r: Vec<u8> = Vec::new();
    let mut i: usize = 0;
    while i < bytes.len()
        invariant
            i <= bytes@.len(),
            r@ == hex_ascii(bytes@.subrange(0, i as int)),
        decreases bytes@.len() - i,
    {
        let b = bytes[i];
        r.push(hex_digit_ascii(b / 16));
        r.push(hex_digit_ascii(b % 16));
        i = i + 1;
        proof {
            assert(r@ =~= hex_ascii(bytes@.subrange(0, i as int)));
        }
    }
    proof {
        assert(bytes@.subrange(0, bytes@.len() as int) =~= bytes@);
    }
    r
}

/// Reads a byte string back from its lower-case hexadecimal text.
/// Exactly the texts that `to_hex_bytes` produces are accepted.
pub fn parse_hex(text: &Vec<u8>) -> (r: Result<Vec<u8>, IpiisError>)
    ensures
        match r {
            Ok(v) => text@ == hex_ascii(v@),
            Err(e) => {
                &&& e matches IpiisError::Parse
                &&& forall|v: Seq<u8>| hex_ascii(v) != text@
            },
        },
{
    let n = text.len();
    if n % 2 != 0 {
        proof {
            assert forall|v: Seq<u8>| hex_ascii(v) != text@ by {
                assert(hex_ascii(v).len() % 2 == 0);
            }
        }
        return Err(IpiisError::Parse);
    }
    let mut out: Vec<u8> = Vec::new();
    let mut i: usize = 0;
    while i < n / 2
        invariant
            i <= n / 2,
            n == text@.len(),
            n % 2 == 0,
            out@.len() == i,
            text@.subrange(0, 2 * i as int) == hex_ascii(out@),
        decreases n / 2 - i,
    {
        let bh = text[2 * i];
        let bl = text[2 * i + 1];
        let hi: u8 = if 48 <= bh && bh <= 57 {
            bh - 48
        } else if 97 <= bh && bh <= 102 {
            bh - 87
        } else {
            proof {
                lemma_parse_hex_bad_digit(text@, 2 * i as int);
            }
            return Err(IpiisError::Parse);
        };
        let lo: u8 = if 48 <= bl && bl <= 57 {
            bl - 48
        } else if 97 <= bl && bl <= 102 {
            bl - 87
        } else {
            proof {
                lemma_parse_hex_bad_digit(text@, 2 * i + 1);
            }
            return Err(IpiisError::Parse);
        };
        out.push(hi * 16 + lo);
        i = i + 1;
        proof {
            let v = out@;
            let k = i as int;
            assert(v[k - 1] == hi * 16 + lo);
            assert((hi * 16 + lo) as int / 16 == hi && (hi * 16 + lo) as int % 16 == lo) by {
                assert(hi < 16 && lo < 16);
            }
            assert forall|j: int| 0 <= j < 2 * k implies text@.subrange(0, 2 * k)[j] == hex_ascii(
                v,
            )[j] by {
                if j < 2 * (k - 1) {
                    assert(text@.subrange(0, 2 * (k - 1))[j] == hex_ascii(v.subrange(0, k - 1))[j]);
                    assert(hex_ascii(v.subrange(0, k - 1))[j] == hex_ascii(v)[j]);
                } else if j == 2 * (k - 1) {
                    assert(hex_val(bh) == Some(hi as int));
                    assert(hex_ascii(v)[j] == hex_digit_byte(v[k - 1] as int / 16));
                } else {
                    assert(hex_val(bl) == Some(lo as int));
                    assert(hex_ascii(v)[j] == hex_digit_byte(v[k - 1] as int % 16));
                }
            }
            assert(text@.subrange(0, 2 * k) =~= hex_ascii(v));
        }
    }
    proof {
        assert(text@.subrange(0, text@.len() as int) =~= text@);
    }
    Ok(out)
}

/// A text with a byte that is no lower-case hexadecimal digit is the hex
/// form of no byte string.
proof fn lemma_parse_hex_bad_digit(text: Seq<u8>, k: int)
    requires
        0 <= k < text.len(),
        hex_val(text[k]) is None,
    ensures
        forall|v: Seq<u8>| hex_ascii(v) != text,
{
    assert forall|v: Seq<u8>| hex_ascii(v) != text by {
        if hex_ascii(v) == text {
            let n = if k % 2 == 0 {
                v[k / 2] as int / 16
            } else {
                v[k / 2] as int % 16
            };
            assert(text[k] == hex_digit_byte(n));
            lemma_hex_digit_byte_val(n);
        }
    }
}

} // verus!
