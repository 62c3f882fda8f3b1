use vstd::prelude::*;
use vstd::string::StringSliceAdditionalSpecFns;

verus! {

/// Offset basis of the 64-bit FNV-1a hash.
pub const CHECKSUM_SEED: u64 = 0xcbf29ce484222325;

/// Multiplier of the 64-bit FNV-1a hash.
pub const CHECKSUM_PRIME: u64 = 0x100000001b3;

/// One FNV-1a step: fold one byte into the running hash.
pub open spec fn checksum_step(h: u64, b: u8) -> u64 {
    vstd::wrapping::u64_specs::wrapping_mul(h ^ (b as u64), CHECKSUM_PRIME)
}

/// The checksum of a byte sequence: 64-bit FNV-1a, folded left to right.
///
/// Checksums detect drift between a script on disk and the history row it
/// was recorded under; they are deterministic but make no cryptographic
/// claim.
pub open spec fn checksum_spec(bytes: Seq<u8>) -> u64
    decreases bytes.len(),
{
    if bytes.len() == 0 {
        CHECKSUM_SEED
    } else {
        checksum_step(checksum_spec(bytes.drop_last()), bytes.last())
    }
}

/// The checksum of a byte slice.
pub fn checksum_bytes(bytes: &[u8]) -> (r: u64)
    ensures
        r == checksum_spec(bytes@),
{
    let mut h: u64 = CHECKSUM_SEED;
    let n: usize = bytes.len();
    let mut i: usize = 0;
    while i < n
        invariant
            n == bytes@.len(),
            0 <= i <= n,
            h == checksum_spec(bytes@.subrange(0, i as int)),
        decreases n - i,
    {
        let b = bytes[i];
        h = (h ^ (b as u64)).wrapping_mul(CHECKSUM_PRIME);
        i = i + 1;
        proof {
            assert(bytes@.subrange(0, i as int).drop_last() =~= bytes@.subrange(0, i - 1));
        }
    }
    proof {
        assert(bytes@.subrange(0, n as int) =~= bytes@);
    }
    h
}

/// The checksum of a script text, taken over its UTF-8 bytes.
pub fn checksum_str(s: &str) -> (r: u64)
    ensures
        r == checksum_spec(s.spec_bytes()),
{
    checksum_bytes(s.as_bytes())
}

/// The lowercase hex digit for a value below sixteen.
pub open spec fn hex_digit(d: u64) -> char {
    if d < 10 {
        ((48 + d) as u8) as char
    } else {
        ((87 + d) as u8) as char
    }
}

/// The stored text form of a checksum: lowercase hex without leading
/// zeros, as the history table's checksum column holds it.
pub open spec fn hex_spec(n: u64) -> Seq<char>
    decreases n,
{
    if n < 16 {
        seq![hex_digit(n)]
    } else {
        hex_spec(n / 16).push(hex_digit(n % 16))
    }
}

/// Whether `c` is a hex digit, either case.
pub open spec fn is_hex_digit(c: char) -> bool {
    ('0' <= c && c <= '9') || ('a' <= c && c <= 'f') || ('A' <= c && c <= 'F')
}

/// The value of one hex digit.
pub open spec fn hex_val(c: char) -> int {
    if '0' <= c && c <= '9' {
        c as int - 48
    } else if 'a' <= c && c <= 'f' {
        c as int - 87
    } else {
        c as int - 55
    }
}

/// The number a run of hex digits denotes, most significant first.
pub open spec fn hex_value(s: Seq<char>) -> int
    decreases s.len(),
{
    if s.len() == 0 {
        0
    } else {
        hex_value(s.drop_last()) * 16 + hex_val(s.last())
    }
}

/// The checksum a stored text denotes: a non-empty run of hex digits whose
/// value fits; anything else — the column was tampered with — is no
/// checksum.
pub open spec fn parse_hex_spec(s: Seq<char>) -> Option<u64> {
    if s.len() > 0 && (forall|i: int| 0 <= i < s.len() ==> is_hex_digit(s[i])) && hex_value(s)
        <= u64::MAX {
        Some(hex_value(s) as u64)
    } else {
        None
    }
}

/// One hex digit as text.
fn hex_digit_str(d: u64) -> (r: &'static str)
    requires
        d < 16,
    ensures
        r@ == seq![hex_digit(d)],
{
    let r = match d {
        0 => "0",
        1 => "1",
        2 => "2",
        3 => "3",
        4 => "4",
        5 => "5",
        6 => "6",
        7 => "7",
        8 => "8",
        9 => "9",
        10 => "a",
        11 => "b",
        12 => "c",
        13 => "d",
        14 => "e",
        _ => "f",
    };
    proof {
        reveal_strlit("0");
        reveal_strlit("1");
        reveal_strlit("2");
        reveal_strlit("3");
        reveal_strlit("4");
        reveal_strlit("5");
        reveal_strlit("6");
        reveal_strlit("7");
        reveal_strlit("8");
        reveal_strlit("9");
        reveal_strlit("a");
        reveal_strlit("b");
        reveal_strlit("c");
        reveal_strlit("d");
        reveal_strlit("e");
        reveal_strlit("f");
        assert(r@ =~= seq![hex_digit(d)]);
    }
    r
}

/// Render a checksum in its stored text form.
pub fn checksum_to_hex(n: u64) -> (r: String)
    ensures
        r@ == hex_spec(n),
    decreases n,
{
    if n < 16 {
        String::from_str(hex_digit_str(n))
    } else {
        let prefix = checksum_to_hex(n / 16);
        let r = prefix.concat(hex_digit_str(n % 16));
        proof {
            assert(r@ =~= hex_spec(n / 16).push(hex_digit(n % 16)));
        }
        r
    }
}

/// Once a digit run's value outgrows `u64`, reading more digits cannot
/// bring it back.
proof fn lemma_hex_value_grows(s: Seq<char>, m: int)
    requires
        0 <= m <= s.len(),
        forall|i: int| m <= i < s.len() ==> is_hex_digit(s[i]),
        hex_value(s.subrange(0, m)) > u64::MAX,
    ensures
        hex_value(s) > u64::MAX,
    decreases s.len() - m,
{
    if m == s.len() {
        assert(s.subrange(0, m) =~= s);
    } else {
        assert(s.subrange(0, m + 1).drop_last() =~= s.subrange(0, m));
        assert(s.subrange(0, m + 1).last() == s[m]);
        assert(hex_val(s[m]) >= 0);
        lemma_hex_value_grows(s, m + 1);
    }
}

/// Read a checksum back from its stored text form.
pub fn checksum_from_hex(s: &str) -> (r: Option<u64>)
    ensures
        r == parse_hex_spec(s@),
{
    let n = s.unicode_len();
    if n == 0 {
        return None;
    }
    let mut v: u64 = 0;
    let mut i: usize = 0;
    proof {
        assert(s@.subrange(0, 0) =~= Seq::<char>::empty());
    }
    while i < n
        invariant
            0 <= i <= n,
            n == s@.len(),
            forall|j: int| 0 <= j < i ==> is_hex_digit(#[trigger] s@[j]),
            v == hex_value(s@.subrange(0, i as int)),
        decreases n - i,
    {
        let c = s.get_char(i);
        let u = c as u32;
        let d: u64 = if 48 <= u && u <= 57 {
            (u - 48) as u64
        } else if 97 <= u && u <= 102 {
            (u - 87) as u64
        } else if 65 <= u && u <= 70 {
            (u - 55) as u64
        } else {
            proof {
                assert(!is_hex_digit(s@[i as int]));
            }
            return None;
        };
        if v > u64::MAX / 16 {
            proof {
                if forall|j: int| 0 <= j < s@.len() ==> is_hex_digit(#[trigger] s@[j]) {
                    assert(s@.subrange(0, i + 1).drop_last() =~= s@.subrange(0, i as int));
                    assert(s@.subrange(0, i + 1).last() == s@[i as int]);
                    assert(hex_val(s@[i as int]) == d);
                    assert(hex_value(s@.subrange(0, i + 1)) > u64::MAX);
                    lemma_hex_value_grows(s@, i + 1);
                }
            }
            return None;
        }
        v = v * 16 + d;
        i = i + 1;
        proof {
            assert(s@.subrange(0, i as int).drop_last() =~= s@.subrange(0, i - 1));
            assert(s@.subrange(0, i as int).last() == s@[i - 1]);
            assert(hex_val(s@[i - 1]) == d);
        }
    }
    proof {
        assert(s@.subrange(0, n as int) =~= s@);
    }
    Some(v)
}

/// Rendering a checksum and reading it back yields the checksum: the stored
/// text form loses nothing.
pub proof fn lemma_hex_round_trip(n: u64)
    ensures
        parse_hex_spec(hex_spec(n)) == Some(n),
    decreases n,
{
    lemma_hex_spec_digits(n);
    lemma_hex_spec_value(n);
}

/// Every character the rendering emits is a lowercase hex digit.
proof fn lemma_hex_spec_digits(n: u64)
    ensures
        hex_spec(n).len() > 0,
        forall|i: int| 0 <= i < hex_spec(n).len() ==> is_hex_digit(#[trigger] hex_spec(n)[i]),
    decreases n,
{
    if n >= 16 {
        lemma_hex_spec_digits(n / 16);
    }
}

/// The rendering denotes the number it was made from.
proof fn lemma_hex_spec_value(n: u64)
    ensures
        hex_value(hex_spec(n)) == n,
    decreases n,
{
    if n < 16 {
        assert(hex_spec(n) == seq![hex_digit(n)]);
        assert(hex_spec(n).drop_last() =~= Seq::<char>::empty());
        assert(hex_value(hex_spec(n).drop_last()) == 0);
        assert(hex_val(hex_digit(n)) == n);
        assert(hex_value(hex_spec(n)) == hex_value(hex_spec(n).drop_last()) * 16 + hex_val(
            hex_spec(n).last(),
        ));
    } else {
        lemma_hex_spec_value(n / 16);
        assert(hex_spec(n) == hex_spec(n / 16).push(hex_digit(n % 16)));
        assert(hex_spec(n).drop_last() =~= hex_spec(n / 16));
        assert(hex_spec(n).last() == hex_digit(n % 16));
        assert(hex_val(hex_digit(n % 16)) == n % 16);
        assert(hex_value(hex_spec(n)) == hex_value(hex_spec(n).drop_last()) * 16 + hex_val(
            hex_spec(n).last(),
        ));
        assert(hex_value(hex_spec(n)) == (n / 16) * 16 + (n % 16));
    }
}

} // verus!
