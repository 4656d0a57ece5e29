//! Little-endian integer codecs and byte-to-text conversion used across the
//! packet and binlog decoders.

use vstd::prelude::*;

verus! {

/// The unsigned integer denoted by a little-endian byte string.
pub open spec fn le_bytes(b: Seq<u8>) -> nat
    decreases b.len(),
{
    if b.len() == 0 {
        0
    } else {
        b[0] as nat + 256 * le_bytes(b.drop_first())
    }
}

/// The signed (two's-complement) integer denoted by a little-endian byte string.
pub open spec fn le_signed(b: Seq<u8>) -> int {
    if le_bytes(b) >= pow2_of((8 * b.len() - 1) as nat) {
        le_bytes(b) - pow2_of(8 * b.len())
    } else {
        le_bytes(b) as int
    }
}

pub open spec fn pow2_of(n: nat) -> nat
    decreases n,
{
    if n == 0 {
        1
    } else {
        2 * pow2_of((n - 1) as nat)
    }
}

proof fn lemma_le_two(s: Seq<u8>)
    requires
        s.len() == 2,
    ensures
        le_bytes(s) == s[0] + s[1] * 0x100,
{
    reveal_with_fuel(le_bytes, 3);
    assert(s.drop_first().drop_first() =~= Seq::<u8>::empty());
}

pub fn read_u16(buf: &[u8]) -> (r: u16)
    requires
        buf@.len() >= 2,
    ensures
        r == le_bytes(buf@.subrange(0, 2)),
{
    let r: u16 = buf[0] as u16 + buf[1] as u16 * 0x100;
    proof {
        lemma_le_two(buf@.subrange(0, 2));
    }
    r
}

proof fn lemma_le_three(s: Seq<u8>)
    requires
        s.len() == 3,
    ensures
        le_bytes(s) == s[0] + s[1] * 0x100 + s[2] * 0x1_0000,
{
    lemma_le_two(s.drop_first());
}

pub fn read_u24(buf: &[u8]) -> (r: u32)
    requires
        buf@.len() >= 3,
    ensures
        r == le_bytes(buf@.subrange(0, 3)),
{
    let r: u32 = buf[0] as u32 + buf[1] as u32 * 0x100 + buf[2] as u32 * 0x1_0000;
    proof {
        lemma_le_three(buf@.subrange(0, 3));
    }
    r
}

proof fn lemma_le_four(s: Seq<u8>)
    requires
        s.len() == 4,
    ensures
        le_bytes(s) == s[0] + s[1] * 0x100 + s[2] * 0x1_0000 + s[3] * 0x100_0000,
{
    lemma_le_three(s.drop_first());
}

pub fn read_u32(buf: &[u8]) -> (r: u32)
    requires
        buf@.len() >= 4,
    ensures
        r == le_bytes(buf@.subrange(0, 4)),
{
    let r: u32 = buf[0] as u32 + buf[1] as u32 * 0x100 + buf[2] as u32 * 0x1_0000
        + buf[3] as u32 * 0x100_0000;
    proof {
        lemma_le_four(buf@.subrange(0, 4));
    }
    r
}

proof fn lemma_le_eight(s: Seq<u8>)
    requires
        s.len() == 8,
    ensures
        le_bytes(s) == s[0] + s[1] * 0x100 + s[2] * 0x1_0000 + s[3] * 0x100_0000 + s[4]
            * 0x1_0000_0000 + s[5] * 0x100_0000_0000 + s[6] * 0x1_0000_0000_0000 + s[7]
            * 0x100_0000_0000_0000,
{
    reveal_with_fuel(le_bytes, 5);
    lemma_le_four(s.drop_first().drop_first().drop_first().drop_first());
    assert(le_bytes(s.drop_first().drop_first().drop_first().drop_first()) == s[4] + s[5] * 0x100
        + s[6] * 0x1_0000 + s[7] * 0x100_0000);
}

pub fn read_u64(buf: &[u8]) -> (r: u64)
    requires
        buf@.len() >= 8,
    ensures
        r == le_bytes(buf@.subrange(0, 8)),
{
    let r: u64 = buf[0] as u64 + buf[1] as u64 * 0x100 + buf[2] as u64 * 0x1_0000
        + buf[3] as u64 * 0x100_0000 + buf[4] as u64 * 0x1_0000_0000
        + buf[5] as u64 * 0x100_0000_0000 + buf[6] as u64 * 0x1_0000_0000_0000
        + buf[7] as u64 * 0x100_0000_0000_0000;
    proof {
        lemma_le_eight(buf@.subrange(0, 8));
    }
    r
}

pub fn write_u16(value: u16) -> (r: Vec<u8>)
    ensures
        r@.len() == 2,
        le_bytes(r@) == value,
{
    let mut r: Vec<u8> = Vec::new();
    r.push((value % 0x100) as u8);
    r.push((value / 0x100) as u8);
    proof {
        lemma_le_two(r@);
    }
    r
}

pub fn write_u24(value: u32) -> (r: Vec<u8>)
    requires
        value < 0x100_0000,
    ensures
        r@.len() == 3,
        le_bytes(r@) == value,
{
    let mut r: Vec<u8> = Vec::new();
    r.push((value % 0x100) as u8);
    r.push((value / 0x100 % 0x100) as u8);
    r.push((value / 0x1_0000) as u8);
    proof {
        lemma_le_three(r@);
    }
    r
}

pub fn write_u32(value: u32) -> (r: Vec<u8>)
    ensures
        r@.len() == 4,
        le_bytes(r@) == value,
{
    let mut r: Vec<u8> = Vec::new();
    r.push((value % 0x100) as u8);
    r.push((value / 0x100 % 0x100) as u8);
    r.push((value / 0x1_0000 % 0x100) as u8);
    r.push((value / 0x100_0000) as u8);
    proof {
        lemma_le_four(r@);
    }
    r
}

pub fn write_u64(value: u64) -> (r: Vec<u8>)
    ensures
        r@.len() == 8,
        le_bytes(r@) == value,
{
    let b0: u8 = (value & 0xff) as u8;
    let b1: u8 = ((value >> 8) & 0xff) as u8;
    let b2: u8 = ((value >> 16) & 0xff) as u8;
    let b3: u8 = ((value >> 24) & 0xff) as u8;
    let b4: u8 = ((value >> 32) & 0xff) as u8;
    let b5: u8 = ((value >> 40) & 0xff) as u8;
    let b6: u8 = ((value >> 48) & 0xff) as u8;
    let b7: u8 = ((value >> 56) & 0xff) as u8;
    let mut r: Vec<u8> = Vec::new();
    r.push(b0);
    r.push(b1);
    r.push(b2);
    r.push(b3);
    r.push(b4);
    r.push(b5);
    r.push(b6);
    r.push(b7);
    proof {
        lemma_le_eight(r@);
        assert(value == b0 + b1 * 0x100 + b2 * 0x1_0000 + b3 * 0x100_0000 + b4 * 0x1_0000_0000
            + b5 * 0x100_0000_0000 + b6 * 0x1_0000_0000_0000 + b7 * 0x100_0000_0000_0000)
            by (bit_vector)
            requires
                b0 == (value & 0xff) as u8,
                b1 == ((value >> 8) & 0xff) as u8,
                b2 == ((value >> 16) & 0xff) as u8,
                b3 == ((value >> 24) & 0xff) as u8,
                b4 == ((value >> 32) & 0xff) as u8,
                b5 == ((value >> 40) & 0xff) as u8,
                b6 == ((value >> 48) & 0xff) as u8,
                b7 == ((value >> 56) & 0xff) as u8,
        ;
    }
    r
}

/// The unsigned integer denoted by a big-endian byte string.
pub open spec fn be_bytes(b: Seq<u8>) -> nat
    decreases b.len(),
{
    if b.len() == 0 {
        0
    } else {
        256 * be_bytes(b.drop_last()) + b.last() as nat
    }
}

/// `be_bytes` of `n` bytes is below `2^(8 n)`.
pub proof fn lemma_be_bound(b: Seq<u8>)
    ensures
        be_bytes(b) < pow2_of(8 * b.len()),
    decreases b.len(),
{
    if b.len() == 0 {
    } else {
        lemma_be_bound(b.drop_last());
        lemma_pow2_mul8(b.len() - 1);
    }
}

proof fn lemma_pow2_add8(n: nat)
    ensures
        pow2_of((n + 8) as nat) == 256 * pow2_of(n),
{
    reveal_with_fuel(pow2_of, 9);
    assert(pow2_of((n + 8) as nat) == 2 * pow2_of((n + 7) as nat));
    assert(pow2_of((n + 7) as nat) == 2 * pow2_of((n + 6) as nat));
    assert(pow2_of((n + 6) as nat) == 2 * pow2_of((n + 5) as nat));
    assert(pow2_of((n + 5) as nat) == 2 * pow2_of((n + 4) as nat));
    assert(pow2_of((n + 4) as nat) == 2 * pow2_of((n + 3) as nat));
    assert(pow2_of((n + 3) as nat) == 2 * pow2_of((n + 2) as nat));
    assert(pow2_of((n + 2) as nat) == 2 * pow2_of((n + 1) as nat));
    assert(pow2_of((n + 1) as nat) == 2 * pow2_of(n));
}

proof fn lemma_pow2_mul8(n: int)
    requires
        n >= 0,
    ensures
        pow2_of((8 * (n + 1)) as nat) == 256 * pow2_of((8 * n) as nat),
{
    lemma_pow2_add8((8 * n) as nat);
}

/// Read `n <= 8` bytes at the front of `buf` as a big-endian integer.
pub fn read_be(buf: &[u8], n: usize) -> (r: u64)
    requires
        n <= 8,
        buf@.len() >= n,
    ensures
        r == be_bytes(buf@.subrange(0, n as int)),
{
    let mut acc: u64 = 0;
    let mut i: usize = 0;
    proof {
        assert(buf@.subrange(0, 0) =~= Seq::<u8>::empty());
        assert(pow2_of(56) == 0x100_0000_0000_0000) by {
            reveal_with_fuel(pow2_of, 57);
        }
    }
    while i < n
        invariant
            i <= n,
            n <= 8,
            buf@.len() >= n,
            acc == be_bytes(buf@.subrange(0, i as int)),
            acc < pow2_of(8 * i as nat),
            pow2_of(56) == 0x100_0000_0000_0000,
        decreases n - i,
    {
        proof {
            lemma_pow2_mul8(i as int);
            assert(buf@.subrange(0, i + 1).drop_last() =~= buf@.subrange(0, i as int));
            lemma_pow2_mono(8 * i as nat, 56);
        }
        acc = acc * 256 + buf[i] as u64;
        i = i + 1;
    }
    proof {
        assert(buf@.subrange(0, n as int) =~= buf@.subrange(0, i as int));
    }
    acc
}

pub proof fn lemma_pow2_mono(a: nat, b: nat)
    requires
        a <= b,
    ensures
        pow2_of(a) <= pow2_of(b),
    decreases b,
{
    if a < b {
        lemma_pow2_mono(a, (b - 1) as nat);
    }
}

/// `le_bytes` of `n` bytes is below `2^(8 n)`.
pub proof fn lemma_le_bound(b: Seq<u8>)
    ensures
        le_bytes(b) < pow2_of(8 * b.len()),
    decreases b.len(),
{
    if b.len() == 0 {
    } else {
        lemma_le_bound(b.drop_first());
        lemma_pow2_mul8(b.len() - 1);
    }
}

/// Powers of two at byte widths, and at the sign-bit positions.
pub proof fn lemma_pow2_table()
    ensures
        pow2_of(0) == 1,
        pow2_of(7) == 0x80,
        pow2_of(8) == 0x100,
        pow2_of(15) == 0x8000,
        pow2_of(16) == 0x1_0000,
        pow2_of(23) == 0x80_0000,
        pow2_of(24) == 0x100_0000,
        pow2_of(31) == 0x8000_0000,
        pow2_of(32) == 0x1_0000_0000,
        pow2_of(39) == 0x80_0000_0000,
        pow2_of(40) == 0x100_0000_0000,
        pow2_of(47) == 0x8000_0000_0000,
        pow2_of(48) == 0x1_0000_0000_0000,
        pow2_of(55) == 0x80_0000_0000_0000,
        pow2_of(56) == 0x100_0000_0000_0000,
        pow2_of(63) == 0x8000_0000_0000_0000,
        pow2_of(64) == 0x1_0000_0000_0000_0000,
{
    reveal_with_fuel(pow2_of, 9);
    lemma_pow2_add8(7);
    lemma_pow2_add8(8);
    lemma_pow2_add8(15);
    lemma_pow2_add8(16);
    lemma_pow2_add8(23);
    lemma_pow2_add8(24);
    lemma_pow2_add8(31);
    lemma_pow2_add8(32);
    lemma_pow2_add8(39);
    lemma_pow2_add8(40);
    lemma_pow2_add8(47);
    lemma_pow2_add8(48);
    lemma_pow2_add8(55);
    lemma_pow2_add8(56);
}

/// Read `n <= 8` bytes at `pos` as a little-endian integer.
pub fn read_le(buf: &[u8], pos: usize, n: usize) -> (r: u64)
    requires
        n <= 8,
        pos + n <= buf@.len(),
    ensures
        r == le_bytes(buf@.subrange(pos as int, pos + n)),
{
    let blen: usize = buf.len();
    let mut acc: u64 = 0;
    let mut i: usize = n;
    proof {
        assert(buf@.subrange(pos + n, pos + n) =~= Seq::<u8>::empty());
        lemma_pow2_table();
    }
    while i > 0
        invariant
            i <= n,
            n <= 8,
            pos + n <= blen,
            blen == buf@.len(),
            acc == le_bytes(buf@.subrange(pos + i, pos + n)),
            acc < pow2_of(8 * (n - i) as nat),
            pow2_of(56) == 0x100_0000_0000_0000,
        decreases i,
    {
        proof {
            lemma_pow2_mul8((n - i) as int);
            lemma_pow2_mono(8 * (n - i) as nat, 56);
            assert(buf@.subrange(pos + i - 1, pos + n).drop_first() =~= buf@.subrange(
                pos + i,
                pos + n,
            ));
        }
        acc = acc * 256 + buf[pos + i - 1] as u64;
        i = i - 1;
    }
    acc
}

/// Read `n` bytes at `pos` as a little-endian two's-complement integer.
pub fn read_signed(buf: &[u8], pos: usize, n: usize) -> (r: i64)
    requires
        1 <= n <= 8,
        pos + n <= buf@.len(),
    ensures
        r == le_signed(buf@.subrange(pos as int, pos + n)),
{
    let acc = read_le(buf, pos, n);
    proof {
        lemma_le_bound(buf@.subrange(pos as int, pos + n));
        lemma_pow2_table();
        lemma_pow2_mono(8 * n as nat, 64);
    }
    if n == 8 {
        if acc >= 0x8000_0000_0000_0000 {
            let m = u64::MAX - acc;
            -(m as i64) - 1
        } else {
            acc as i64
        }
    } else {
        let full: u64 = if n == 1 {
            0x100
        } else if n == 2 {
            0x1_0000
        } else if n == 3 {
            0x100_0000
        } else if n == 4 {
            0x1_0000_0000
        } else if n == 5 {
            0x100_0000_0000
        } else if n == 6 {
            0x1_0000_0000_0000
        } else {
            0x100_0000_0000_0000
        };
        let half = full / 2;
        if acc >= half {
            -((full - acc) as i64)
        } else {
            acc as i64
        }
    }
}

/// The ASCII digit character for `d` in `0 .. 10`.
pub open spec fn digit_char(d: int) -> char {
    if d == 0 {
        '0'
    } else if d == 1 {
        '1'
    } else if d == 2 {
        '2'
    } else if d == 3 {
        '3'
    } else if d == 4 {
        '4'
    } else if d == 5 {
        '5'
    } else if d == 6 {
        '6'
    } else if d == 7 {
        '7'
    } else if d == 8 {
        '8'
    } else {
        '9'
    }
}

/// Decimal digit string of `n`, without leading zeroes (`0` gives `"0"`).
pub open spec fn dec_chars(n: nat) -> Seq<char>
    decreases n,
{
    if n < 10 {
        seq![digit_char(n as int)]
    } else {
        dec_chars(n / 10) + seq![digit_char((n % 10) as int)]
    }
}

/// Decimal digit string of `n` padded with leading zeroes to width `w`;
/// only the lowest `w` digits appear.
pub open spec fn dec_chars_padded(n: nat, w: nat) -> Seq<char>
    decreases w,
{
    if w == 0 {
        Seq::empty()
    } else {
        dec_chars_padded(n / 10, (w - 1) as nat) + seq![digit_char((n % 10) as int)]
    }
}

/// Decimal digit string of a signed integer, `-` first when negative.
pub open spec fn int_chars(i: int) -> Seq<char> {
    if i < 0 {
        seq!['-'] + dec_chars((-i) as nat)
    } else {
        dec_chars(i as nat)
    }
}

pub fn digit_str(d: u64) -> (r: &'static str)
    requires
        d < 10,
    ensures
        r@ == seq![digit_char(d as int)],
{
    proof {
        reveal_strlit("0");
        reveal_strlit("1");
        reveal_strlit("2");
        reveal_strlit("3");
        reveal_strlit("4");
        reveal_strlit("5");
        reveal_strlit("6");
        reveal_strlit("7");
        reveal_strlit("8");
        reveal_strlit("9");
    }
    if d == 0 {
        "0"
    } else if d == 1 {
        "1"
    } else if d == 2 {
        "2"
    } else if d == 3 {
        "3"
    } else if d == 4 {
        "4"
    } else if d == 5 {
        "5"
    } else if d == 6 {
        "6"
    } else if d == 7 {
        "7"
    } else if d == 8 {
        "8"
    } else {
        "9"
    }
}

/// Render `n` in decimal.
pub fn u64_to_dec(n: u64) -> (r: String)
    ensures
        r@ == dec_chars(n as nat),
    decreases n,
{
    if n < 10 {
        digit_str(n).to_owned()
    } else {
        let r = u64_to_dec(n / 10);
        r.concat(digit_str(n % 10))
    }
}

/// Render `n` in decimal, zero-padded to width `w`.
pub fn u64_to_dec_padded(n: u64, w: usize) -> (r: String)
    ensures
        r@ == dec_chars_padded(n as nat, w as nat),
    decreases w,
{
    if w == 0 {
        String::new()
    } else {
        let r = u64_to_dec_padded(n / 10, w - 1);
        r.concat(digit_str(n % 10))
    }
}

/// Render a signed integer in decimal.
pub fn i64_to_dec(n: i64) -> (r: String)
    ensures
        r@ == int_chars(n as int),
{
    if n >= 0 {
        u64_to_dec(n as u64)
    } else {
        let magnitude: u64 = if n == i64::MIN {
            0x8000_0000_0000_0000
        } else {
            (-n) as u64
        };
        proof {
            reveal_strlit("-");
        }
        let s = "-".to_owned();
        s.concat(u64_to_dec(magnitude).as_str())
    }
}

/// What `String::from_utf8_lossy` yields on a byte string; it depends on the
/// bytes alone.
pub uninterp spec fn utf8_lossy_of(b: Seq<u8>) -> Seq<char>;

/// Relies on `String::from_utf8_lossy`: valid UTF-8 input decodes unchanged;
/// the result is a function of the bytes alone.
#[verifier::external_body]
pub fn read_string_value(buf: &[u8]) -> (r: String)
    ensures
        r@ == utf8_lossy_of(buf@),
        vstd::utf8::valid_utf8(buf@) ==> r@ == vstd::utf8::decode_utf8(buf@),
{
    String::from_utf8_lossy(buf).to_string()
}

/// Whether every character is an ASCII decimal digit, and there is at
/// least one.
pub open spec fn spec_all_dec_digits(s: Seq<char>) -> bool {
    s.len() > 0 && forall|i: int| 0 <= i < s.len() ==> '0' <= #[trigger] s[i] <= '9'
}

/// The number a digit string denotes.
pub open spec fn spec_dec_num(s: Seq<char>) -> nat
    decreases s.len(),
{
    if s.len() == 0 {
        0
    } else {
        spec_dec_num(s.drop_last()) * 10 + ((s.last() as int - 48) as nat)
    }
}

/// The value a decimal numeral string parses to: its digits' number, when
/// the string is all digits and the number fits in a `usize`.
pub open spec fn spec_parse_usize(s: Seq<char>) -> Option<nat> {
    if spec_all_dec_digits(s) && spec_dec_num(s) <= usize::MAX {
        Some(spec_dec_num(s))
    } else {
        None
    }
}

proof fn lemma_dec_num_monotone(s: Seq<char>, i: int)
    requires
        0 <= i <= s.len(),
        forall|j: int| 0 <= j < s.len() ==> '0' <= #[trigger] s[j] <= '9',
    ensures
        spec_dec_num(s) >= spec_dec_num(s.take(i)),
    decreases s.len() - i,
{
    if i < s.len() {
        lemma_dec_num_monotone(s, i + 1);
        assert(s.take(i + 1).drop_last() =~= s.take(i));
        assert(spec_dec_num(s.take(i + 1)) == spec_dec_num(s.take(i)) * 10 + ((s.take(
            i + 1,
        ).last() as int - 48) as nat));
    } else {
        assert(s.take(i) =~= s);
    }
}

/// Parse a decimal numeral.
pub fn parse_usize(s: &str) -> (r: Option<usize>)
    ensures
        r matches Some(v) ==> spec_parse_usize(s@) == Some(v as nat),
        r is None ==> spec_parse_usize(s@) is None,
{
    if !s.is_ascii() {
        proof {
            if spec_all_dec_digits(s@) {
                assert(forall|i: int|
                    0 <= i < s@.len() ==> '\0' <= #[trigger] s@[i] <= '\u{7f}');
                assert(vstd::utf8::is_ascii_chars(s@));
            }
        }
        return None;
    }
    let bytes = s.as_bytes();
    proof {
        vstd::string::is_ascii_spec_bytes(s);
        assert(bytes@ =~= Seq::new(s@.len(), |i: int| s@.index(i) as u8));
    }
    let n = bytes.len();
    if n == 0 {
        return None;
    }
    let mut acc: usize = 0;
    let mut i: usize = 0;
    proof {
        assert(s@.take(0) =~= Seq::<char>::empty());
    }
    while i < n
        invariant
            i <= n,
            n == bytes@.len(),
            n == s@.len(),
            n > 0,
            bytes@ == Seq::new(s@.len(), |k: int| s@.index(k) as u8),
            vstd::utf8::is_ascii_chars(s@),
            acc == spec_dec_num(s@.take(i as int)),
            forall|j: int| 0 <= j < i ==> '0' <= #[trigger] s@[j] <= '9',
        decreases n - i,
    {
        let b = bytes[i];
        proof {
            assert(b == s@[i as int] as u8);
            assert('\0' <= s@[i as int] <= '\u{7f}');
            assert(('0' <= s@[i as int] && s@[i as int] <= '9') <==> (48 <= b && b <= 57));
        }
        if b < 48 || b > 57 {
            return None;
        }
        let d = (b - 48) as usize;
        if acc > usize::MAX / 10 || (acc == usize::MAX / 10 && d > usize::MAX % 10) {
            proof {
                assert(s@.take(i + 1).drop_last() =~= s@.take(i as int));
                assert(spec_dec_num(s@.take(i + 1)) > usize::MAX);
                if spec_all_dec_digits(s@) {
                    lemma_dec_num_monotone(s@, i + 1);
                }
            }
            return None;
        }
        proof {
            assert(s@.take(i + 1).drop_last() =~= s@.take(i as int));
        }
        acc = acc * 10 + d;
        i = i + 1;
    }
    proof {
        assert(s@.take(n as int) =~= s@);
    }
    Some(acc)
}

} // verus!
