//! QR-code pairing for wireless debugging: a random service name and a
//! six-digit pairing code, and the QR payload
//! `WIFI:T:ADB;S:<service_name>;P:<code>;;` that carries them.
use vstd::prelude::*;
use crate::text::{append, concat, push_char};

verus! {

/// The information needed for QR-code pairing.
#[derive(Debug, PartialEq, Eq)]
pub struct PairingInfo {
    pub service_name: String,
    pub code: String,
    /// QR content: WIFI:T:ADB;S:<service_name>;P:<code>;;
    pub payload: String,
}

/// The mathematical model of a [`PairingInfo`].
pub struct PairingInfoView {
    pub service_name: Seq<char>,
    pub code: Seq<char>,
    pub payload: Seq<char>,
}

impl DeepView for PairingInfo {
    type V = PairingInfoView;

    open spec fn deep_view(&self) -> PairingInfoView {
        PairingInfoView {
            service_name: self.service_name@,
            code: self.code@,
            payload: self.payload@,
        }
    }
}

/// The lowercase digit of value `d` (0 to 15).
pub open spec fn digit(d: nat) -> char {
    if d == 0 {
        '0'
    } else if d == 1 {
        '1'
    } else if d == 2 {
        '2'
    } else if d == 3 {
        '3'
    } else if d == 4 {
        '4'
    } else if d == 5 {
        '5'
    } else if d == 6 {
        '6'
    } else if d == 7 {
        '7'
    } else if d == 8 {
        '8'
    } else if d == 9 {
        '9'
    } else if d == 10 {
        'a'
    } else if d == 11 {
        'b'
    } else if d == 12 {
        'c'
    } else if d == 13 {
        'd'
    } else if d == 14 {
        'e'
    } else {
        'f'
    }
}

/// The value of a digit character, if it is one (lowercase for 10 to 15).
pub open spec fn digit_value(c: char) -> Option<nat> {
    if '0' <= c && c <= '9' {
        Some((c as nat - '0' as nat) as nat)
    } else if 'a' <= c && c <= 'f' {
        Some((c as nat - 'a' as nat + 10) as nat)
    } else {
        None
    }
}

/// `n` in decimal, without leading zeros (`format!("{}", n)`).
pub open spec fn decimal(n: nat) -> Seq<char>
    decreases n,
{
    if n < 10 {
        seq![digit(n)]
    } else {
        decimal(n / 10).push(digit(n % 10))
    }
}

/// The lowest `k` hexadecimal digits of `x`, zero-padded, lowercase.
pub open spec fn hex_digits(x: nat, k: nat) -> Seq<char>
    decreases k,
{
    if k == 0 {
        seq![]
    } else {
        hex_digits(x / 16, (k - 1) as nat).push(digit(x % 16))
    }
}

/// The number that the digits `s` write in base `b`.
pub open spec fn value_in_base(s: Seq<char>, b: nat) -> int
    decreases s.len(),
{
    if s.len() == 0 {
        0
    } else {
        value_in_base(s.drop_last(), b) * b + match digit_value(s.last()) {
            Some(v) => v as int,
            None => 0,
        }
    }
}

/// `c` is a digit below base `b`.
pub open spec fn is_digit_below(c: char, b: nat) -> bool {
    match digit_value(c) {
        Some(v) => v < b,
        None => false,
    }
}

/// Every character is a digit below base `b`.
pub open spec fn all_digits(s: Seq<char>, b: nat) -> bool {
    forall|i: int| 0 <= i < s.len() ==> #[trigger] is_digit_below(s[i], b)
}

/// The pairing code of a seed: a number of six decimal digits.
pub open spec fn pairing_code(seed: u64) -> Seq<char> {
    decimal((100000 + seed % 900000) as nat)
}

/// The service name of a seed: `adbqr-` and eight hexadecimal digits of
/// bits 16 to 47 of the seed.
pub open spec fn service_name(seed: u64) -> Seq<char> {
    "adbqr-"@ + hex_digits(((seed / 65536) % 4294967296) as nat, 8)
}

/// The QR payload of a service name and a code.
pub open spec fn qr_payload(service: Seq<char>, code: Seq<char>) -> Seq<char> {
    "WIFI:T:ADB;S:"@ + service + ";P:"@ + code + ";;"@
}

// ---------------------------------------------------------------------
// Laws
// ---------------------------------------------------------------------

proof fn lemma_digit(d: nat)
    requires
        d < 16,
    ensures
        digit_value(digit(d)) == Some(d),
{
}

/// Decimal writing is read back as the same number, with digits only.
pub proof fn lemma_decimal_value(n: nat)
    ensures
        value_in_base(decimal(n), 10) == n,
        all_digits(decimal(n), 10),
        decimal(n).len() >= 1,
    decreases n,
{
    lemma_digit(n % 10);
    if n >= 10 {
        lemma_decimal_value(n / 10);
        let s = decimal(n);
        assert(s.drop_last() =~= decimal(n / 10));
        assert(s.last() == digit(n % 10));
        assert((n / 10) * 10 + n % 10 == n) by (nonlinear_arith);
        assert(value_in_base(s, 10) == value_in_base(s.drop_last(), 10) * 10 + (n % 10) as int);
        assert forall|i: int| 0 <= i < s.len() implies #[trigger] is_digit_below(s[i], 10) by {
            if i < s.len() - 1 {
                assert(s[i] == decimal(n / 10)[i]);
            }
        }
    } else {
        lemma_digit(n);
        let s = decimal(n);
        assert(s.drop_last() =~= seq![]);
        assert(value_in_base(s.drop_last(), 10) == 0);
        assert(value_in_base(s, 10) == 0 * 10 + n as int);
    }
}

/// Numbers from 10^5 to 10^6 - 1 have six decimal digits.
pub proof fn lemma_decimal_six_digits(n: nat)
    requires
        100000 <= n < 1000000,
    ensures
        decimal(n).len() == 6,
{
    let n1 = n / 10;
    let n2 = n1 / 10;
    let n3 = n2 / 10;
    let n4 = n3 / 10;
    let n5 = n4 / 10;
    assert(1 <= n5 < 10);
    assert(decimal(n5).len() == 1);
    assert(decimal(n4).len() == 2);
    assert(decimal(n3).len() == 3);
    assert(decimal(n2).len() == 4);
    assert(decimal(n1).len() == 5);
}

/// `k` zero-padded hexadecimal digits are `k` digits that read back as the
/// number modulo 16^k.
pub proof fn lemma_hex_digits(x: nat, k: nat)
    ensures
        hex_digits(x, k).len() == k,
        all_digits(hex_digits(x, k), 16),
    decreases k,
{
    if k > 0 {
        lemma_hex_digits(x / 16, (k - 1) as nat);
        lemma_digit(x % 16);
        let s = hex_digits(x, k);
        assert forall|i: int| 0 <= i < s.len() implies #[trigger] is_digit_below(s[i], 16) by {
            if i < s.len() - 1 {
                assert(s[i] == hex_digits(x / 16, (k - 1) as nat)[i]);
            }
        }
    }
}

/// `16^k`.
pub open spec fn pow16(k: nat) -> nat
    decreases k,
{
    if k == 0 {
        1
    } else {
        16 * pow16((k - 1) as nat)
    }
}

/// `k` hexadecimal digits of `x` read back as `x` modulo `16^k`.
pub proof fn lemma_hex_digits_value(x: nat, k: nat)
    ensures
        pow16(k) > 0,
        value_in_base(hex_digits(x, k), 16) == x % pow16(k),
    decreases k,
{
    if k == 0 {
        assert(x % 1 == 0) by (nonlinear_arith);
    } else {
        let km = (k - 1) as nat;
        lemma_hex_digits_value(x / 16, km);
        lemma_digit(x % 16);
        let s = hex_digits(x, k);
        assert(s.drop_last() =~= hex_digits(x / 16, km));
        vstd::arithmetic::div_mod::lemma_breakdown(x as int, 16, pow16(km) as int);
        assert(value_in_base(s, 16) == value_in_base(s.drop_last(), 16) * 16 + (x % 16) as int);
        assert(((x / 16) % pow16(km)) * 16 == 16 * ((x / 16) % pow16(km))) by (nonlinear_arith);
    }
}

/// The pairing code of every seed is six decimal digits, which read as a
/// number from 100000 to 999999.
pub proof fn lemma_pairing_code(seed: u64)
    ensures
        pairing_code(seed).len() == 6,
        all_digits(pairing_code(seed), 10),
        100000 <= value_in_base(pairing_code(seed), 10) <= 999999,
        value_in_base(pairing_code(seed), 10) == 100000 + seed % 900000,
{
    let n = (100000 + seed % 900000) as nat;
    lemma_decimal_six_digits(n);
    lemma_decimal_value(n);
}

/// The service name of every seed ends in eight hexadecimal digits.
pub proof fn lemma_service_name(seed: u64)
    ensures
        service_name(seed).len() == "adbqr-"@.len() + 8,
        service_name(seed).take("adbqr-"@.len() as int) == "adbqr-"@,
        all_digits(service_name(seed).skip("adbqr-"@.len() as int), 16),
        value_in_base(service_name(seed).skip("adbqr-"@.len() as int), 16) == (seed / 65536)
            % 4294967296,
{
    let x = ((seed / 65536) % 4294967296) as nat;
    lemma_hex_digits(x, 8);
    lemma_hex_digits_value(x, 8);
    reveal_with_fuel(pow16, 9);
    assert(pow16(8) == 4294967296);
    assert(x % 4294967296 == x);
    assert(service_name(seed).take("adbqr-"@.len() as int) =~= "adbqr-"@);
    assert(service_name(seed).skip("adbqr-"@.len() as int) =~= hex_digits(x, 8));
}

// ---------------------------------------------------------------------
// Code
// ---------------------------------------------------------------------

fn digit_char(d: u64) -> (c: char)
    requires
        d < 16,
    ensures
        c == digit(d as nat),
{
    if d == 0 {
        '0'
    } else if d == 1 {
        '1'
    } else if d == 2 {
        '2'
    } else if d == 3 {
        '3'
    } else if d == 4 {
        '4'
    } else if d == 5 {
        '5'
    } else if d == 6 {
        '6'
    } else if d == 7 {
        '7'
    } else if d == 8 {
        '8'
    } else if d == 9 {
        '9'
    } else if d == 10 {
        'a'
    } else if d == 11 {
        'b'
    } else if d == 12 {
        'c'
    } else if d == 13 {
        'd'
    } else if d == 14 {
        'e'
    } else {
        'f'
    }
}

/// `n` in decimal.
pub fn decimal_string(n: u64) -> (s: String)
    ensures
        s@ == decimal(n as nat),
    decreases n,
{
    if n < 10 {
        let mut s = String::new();
        push_char(&mut s, digit_char(n));
        assert(s@ =~= seq![digit(n as nat)]);
        s
    } else {
        let mut s = decimal_string(n / 10);
        push_char(&mut s, digit_char(n % 10));
        s
    }
}

/// The lowest `k` hexadecimal digits of `x`, zero-padded.
fn hex_string(x: u64, k: u64) -> (s: String)
    ensures
        s@ == hex_digits(x as nat, k as nat),
    decreases k,
{
    if k == 0 {
        String::new()
    } else {
        let mut s = hex_string(x / 16, k - 1);
        push_char(&mut s, digit_char(x % 16));
        s
    }
}

/// The seed of a pairing, from the clock (nanoseconds since the epoch)
/// and the process id: the low 32 bits come from the clock, the high 32
/// bits are those of the clock mixed (xor) with the process id.
pub fn pairing_seed(nanos: u128, pid: u32) -> (seed: u64)
    ensures
        seed & 0xffff_ffff == (nanos as u64) & 0xffff_ffff,
        seed >> 32u64 == ((nanos as u64) >> 32u64) ^ (pid as u64),
{
    let n: u64 = nanos as u64;
    let p: u64 = pid as u64;
    let seed = n ^ (p << 32u64);
    assert(seed & 0xffff_ffff == n & 0xffff_ffff) by (bit_vector)
        requires
            seed == n ^ (p << 32u64),
            p <= 0xffff_ffff,
    ;
    assert(seed >> 32u64 == (n >> 32u64) ^ p) by (bit_vector)
        requires
            seed == n ^ (p << 32u64),
            p <= 0xffff_ffff,
    ;
    seed
}

/// The pairing information of a seed: the code `100000 + seed % 900000`,
/// the service name `adbqr-` followed by bits 16 to 47 of the seed in
/// eight lowercase hexadecimal digits, and the QR payload that carries
/// both.
pub fn pairing_from_seed(seed: u64) -> (info: PairingInfo)
    ensures
        info.code@ == pairing_code(seed),
        info.service_name@ == service_name(seed),
        info.payload@ == qr_payload(info.service_name@, info.code@),
{
    let code = decimal_string(100000 + seed % 900000);
    let hex = hex_string((seed / 65536) % 4294967296, 8);
    let service_name = concat("adbqr-", hex.as_str());
    let mut payload = concat("WIFI:T:ADB;S:", service_name.as_str());
    append(&mut payload, ";P:");
    append(&mut payload, code.as_str());
    append(&mut payload, ";;");
    assert(payload@ =~= qr_payload(service_name@, code@));
    PairingInfo { service_name, code, payload }
}

} // verus!
