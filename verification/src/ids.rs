//! Entry identities: 128-bit values carried as two machine words, rendered
//! and parsed in the canonical hyphenated lower-case hexadecimal form.

use vstd::prelude::*;
use crate::text::{hex_digit, hex_val, hex_fixed, push_hex, string_of_chars};
use vstd::string::StrSliceExecFns;

verus! {

/// A 128-bit entry identity; `hi` holds the most significant half.
#[derive(Clone, Copy, PartialEq, Eq, Structural, Debug, Hash)]
pub struct Identity {
    pub hi: u64,
    pub lo: u64,
}

/// `16 ^ w`.
pub open spec fn pow16(w: nat) -> int
    decreases w,
{
    if w == 0 {
        1
    } else {
        16 * pow16((w - 1) as nat)
    }
}

/// The numeric value of a sequence of hexadecimal digit characters, most
/// significant first.
pub open spec fn hex_seq_val(s: Seq<char>) -> int
    decreases s.len(),
{
    if s.len() == 0 {
        0
    } else {
        hex_seq_val(s.drop_last()) * 16 + hex_val(s.last())
    }
}

/// The canonical 36-character rendering of an identity: five hexadecimal
/// groups of 8, 4, 4, 4 and 12 digits, separated by hyphens.
pub open spec fn id_chars(hi: u64, lo: u64) -> Seq<char> {
    hex_fixed((hi >> 32) as int, 8) + seq!['-'] + hex_fixed(((hi >> 16) & 0xffff) as int, 4)
        + seq!['-'] + hex_fixed((hi & 0xffff) as int, 4) + seq!['-']
        + hex_fixed(((lo >> 48) & 0xffff) as int, 4) + seq!['-']
        + hex_fixed((lo & 0xffff_ffff_ffff) as int, 12)
}

pub proof fn lemma_hex_fixed_len(n: int, w: nat)
    ensures
        hex_fixed(n, w).len() == w,
    decreases w,
{
    if w > 0 {
        lemma_hex_fixed_len(n / 16, (w - 1) as nat);
    }
}

pub proof fn lemma_hex_fixed_digits(n: int, w: nat)
    ensures
        forall|i: int| 0 <= i < w ==> 0 <= #[trigger] hex_val(hex_fixed(n, w)[i]) < 16,
    decreases w,
{
    lemma_hex_fixed_len(n, w);
    if w > 0 {
        lemma_hex_fixed_digits(n / 16, (w - 1) as nat);
        lemma_hex_fixed_len(n / 16, (w - 1) as nat);
        assert forall|i: int| 0 <= i < w implies 0 <= #[trigger] hex_val(hex_fixed(n, w)[i])
            < 16 by {
            if i < w - 1 {
                assert(hex_fixed(n, w)[i] == hex_fixed(n / 16, (w - 1) as nat)[i]);
            } else {
                assert(hex_fixed(n, w)[i] == hex_digit(n % 16));
            }
        }
    }
}

/// Reading back the digits that `hex_fixed` wrote yields the value, as long
/// as the value fits in the width.
pub proof fn lemma_hex_fixed_val(n: int, w: nat)
    requires
        0 <= n < pow16(w),
    ensures
        hex_seq_val(hex_fixed(n, w)) == n,
    decreases w,
{
    if w == 0 {
        assert(hex_fixed(n, 0) =~= Seq::<char>::empty());
    } else {
        assert(0 <= n / 16 < pow16((w - 1) as nat)) by (nonlinear_arith)
            requires
                0 <= n < 16 * pow16((w - 1) as nat),
                pow16(w) == 16 * pow16((w - 1) as nat),
        ;
        lemma_hex_fixed_val(n / 16, (w - 1) as nat);
        lemma_hex_fixed_len(n / 16, (w - 1) as nat);
        let s = hex_fixed(n, w);
        assert(s.drop_last() =~= hex_fixed(n / 16, (w - 1) as nat));
        assert(0 <= n % 16 < 16);
        assert(hex_val(hex_digit(n % 16)) == n % 16);
        assert(hex_seq_val(s) == (n / 16) * 16 + n % 16);
        assert((n / 16) * 16 + n % 16 == n) by (nonlinear_arith);
    }
}

/// Writing back the value of a sequence of hexadecimal digits yields the
/// same digit characters.
pub proof fn lemma_hex_fixed_of_val(s: Seq<char>)
    requires
        forall|i: int| 0 <= i < s.len() ==> 0 <= #[trigger] hex_val(s[i]) < 16,
    ensures
        hex_fixed(hex_seq_val(s), s.len()) == s,
        0 <= hex_seq_val(s) < pow16(s.len()),
    decreases s.len(),
{
    if s.len() == 0 {
        assert(hex_fixed(0, 0) =~= s);
    } else {
        let front = s.drop_last();
        assert(forall|i: int|
            0 <= i < front.len() ==> 0 <= #[trigger] hex_val(front[i]) < 16) by {
            assert(forall|i: int| 0 <= i < front.len() ==> front[i] == s[i]);
        }
        lemma_hex_fixed_of_val(front);
        let v = hex_seq_val(s);
        let fv = hex_seq_val(front);
        let d = hex_val(s.last());
        assert(0 <= d < 16);
        assert(v == fv * 16 + d);
        assert(v / 16 == fv && v % 16 == d) by (nonlinear_arith)
            requires
                v == fv * 16 + d,
                0 <= d < 16,
                0 <= fv,
        ;
        assert(hex_digit(hex_val(s.last())) == s.last());
        assert(hex_fixed(v, s.len()) =~= s);
        assert(v < pow16(s.len())) by (nonlinear_arith)
            requires
                v == fv * 16 + d,
                d < 16,
                fv < pow16((s.len() - 1) as nat),
                pow16(s.len()) == 16 * pow16((s.len() - 1) as nat),
        ;
    }
}

/// The canonical rendering always has length 36, hyphens exactly at
/// positions 8, 13, 18 and 23, and hexadecimal digits everywhere else.
pub proof fn lemma_id_chars_shape(hi: u64, lo: u64)
    ensures
        id_chars(hi, lo).len() == 36,
        id_chars(hi, lo)[8] == '-',
        id_chars(hi, lo)[13] == '-',
        id_chars(hi, lo)[18] == '-',
        id_chars(hi, lo)[23] == '-',
        forall|p: int|
            0 <= p < 36 && p != 8 && p != 13 && p != 18 && p != 23 ==> 0 <= #[trigger] hex_val(
                id_chars(hi, lo)[p],
            ) < 16,
{
    lemma_hex_fixed_len((hi >> 32) as int, 8);
    lemma_hex_fixed_len(((hi >> 16) & 0xffff) as int, 4);
    lemma_hex_fixed_len((hi & 0xffff) as int, 4);
    lemma_hex_fixed_len(((lo >> 48) & 0xffff) as int, 4);
    lemma_hex_fixed_len((lo & 0xffff_ffff_ffff) as int, 12);
    lemma_hex_fixed_digits((hi >> 32) as int, 8);
    lemma_hex_fixed_digits(((hi >> 16) & 0xffff) as int, 4);
    lemma_hex_fixed_digits((hi & 0xffff) as int, 4);
    lemma_hex_fixed_digits(((lo >> 48) & 0xffff) as int, 4);
    lemma_hex_fixed_digits((lo & 0xffff_ffff_ffff) as int, 12);
}

impl Identity {
    /// The canonical hyphenated rendering of this identity.
    pub fn to_hyphenated(&self) -> (r: String)
        ensures
            r@ == id_chars(self.hi, self.lo),
    {
        let mut v: Vec<char> = Vec::new();
        push_hex(&mut v, self.hi >> 32, 8);
        v.push('-');
        push_hex(&mut v, (self.hi >> 16) & 0xffff, 4);
        v.push('-');
        push_hex(&mut v, self.hi & 0xffff, 4);
        v.push('-');
        push_hex(&mut v, (self.lo >> 48) & 0xffff, 4);
        v.push('-');
        push_hex(&mut v, self.lo & 0xffff_ffff_ffff, 12);
        proof {
            assert(v@ =~= id_chars(self.hi, self.lo));
        }
        string_of_chars(&v)
    }

    /// The first six characters of the canonical rendering.
    pub fn short(&self) -> (r: String)
        ensures
            r@ == id_chars(self.hi, self.lo).take(6),
    {
        let mut v: Vec<char> = Vec::new();
        push_hex(&mut v, self.hi >> 32, 8);
        v.push('-');
        push_hex(&mut v, (self.hi >> 16) & 0xffff, 4);
        v.push('-');
        push_hex(&mut v, self.hi & 0xffff, 4);
        v.push('-');
        push_hex(&mut v, (self.lo >> 48) & 0xffff, 4);
        v.push('-');
        push_hex(&mut v, self.lo & 0xffff_ffff_ffff, 12);
        proof {
            assert(v@ =~= id_chars(self.hi, self.lo));
        }
        v.truncate(6);
        string_of_chars(&v)
    }

    /// Parses the canonical hyphenated lower-case rendering; returns the
    /// identity exactly when the text is such a rendering.
    pub fn parse(s: &str) -> (r: Option<Identity>)
        ensures
            r matches Some(id) ==> s@ == id_chars(id.hi, id.lo),
            r is None ==> forall|hi: u64, lo: u64| s@ != #[trigger] id_chars(hi, lo),
    {
        if s.unicode_len() != 36 {
            proof {
                assert forall|hi: u64, lo: u64| s@ != #[trigger] id_chars(hi, lo) by {
                    lemma_id_chars_shape(hi, lo);
                }
            }
            return None;
        }
        if s.get_char(8) != '-' || s.get_char(13) != '-' || s.get_char(18) != '-' || s.get_char(
            23,
        ) != '-' {
            proof {
                assert forall|hi: u64, lo: u64| s@ != #[trigger] id_chars(hi, lo) by {
                    lemma_id_chars_shape(hi, lo);
                }
            }
            return None;
        }
        let a = match parse_hex_run(s, 0, 8) {
            Some(x) => x,
            None => {
                proof {
                    assert forall|hi: u64, lo: u64| s@ != #[trigger] id_chars(hi, lo) by {
                        lemma_id_chars_shape(hi, lo);
                    }
                }
                return None;
            },
        };
        let b = match parse_hex_run(s, 9, 4) {
            Some(x) => x,
            None => {
                proof {
                    assert forall|hi: u64, lo: u64| s@ != #[trigger] id_chars(hi, lo) by {
                        lemma_id_chars_shape(hi, lo);
                    }
                }
                return None;
            },
        };
        let c = match parse_hex_run(s, 14, 4) {
            Some(x) => x,
            None => {
                proof {
                    assert forall|hi: u64, lo: u64| s@ != #[trigger] id_chars(hi, lo) by {
                        lemma_id_chars_shape(hi, lo);
                    }
                }
                return None;
            },
        };
        let d = match parse_hex_run(s, 19, 4) {
            Some(x) => x,
            None => {
                proof {
                    assert forall|hi: u64, lo: u64| s@ != #[trigger] id_chars(hi, lo) by {
                        lemma_id_chars_shape(hi, lo);
                    }
                }
                return None;
            },
        };
        let e = match parse_hex_run(s, 24, 12) {
            Some(x) => x,
            None => {
                proof {
                    assert forall|hi: u64, lo: u64| s@ != #[trigger] id_chars(hi, lo) by {
                        lemma_id_chars_shape(hi, lo);
                    }
                }
                return None;
            },
        };
        let hi: u64 = (a << 32) | (b << 16) | c;
        let lo: u64 = (d << 48) | e;
        proof {
            reveal_with_fuel(pow16, 13);
            assert(pow16(8) == 0x1_0000_0000 && pow16(4) == 0x1_0000 && pow16(12)
                == 0x1_0000_0000_0000);
            assert((((a << 32) | (b << 16) | c) >> 32) == a && ((((a << 32) | (b << 16) | c)
                >> 16) & 0xffff) == b && (((a << 32) | (b << 16) | c) & 0xffff) == c)
                by (bit_vector)
                requires
                    a < 0x1_0000_0000u64,
                    b < 0x1_0000u64,
                    c < 0x1_0000u64,
            ;
            assert(((((d << 48) | e) >> 48) & 0xffff) == d && (((d << 48) | e)
                & 0xffff_ffff_ffff) == e) by (bit_vector)
                requires
                    d < 0x1_0000u64,
                    e < 0x1_0000_0000_0000u64,
            ;
            lemma_hex_fixed_of_val(s@.subrange(0, 8));
            lemma_hex_fixed_of_val(s@.subrange(9, 13));
            lemma_hex_fixed_of_val(s@.subrange(14, 18));
            lemma_hex_fixed_of_val(s@.subrange(19, 23));
            lemma_hex_fixed_of_val(s@.subrange(24, 36));
            assert(id_chars(hi, lo) =~= s@);
        }
        Some(Identity { hi, lo })
    }
}

/// Reads `width` hexadecimal digit characters of `s` starting at `start`;
/// yields their value exactly when all of them are lower-case hexadecimal
/// digits.
fn parse_hex_run(s: &str, start: usize, width: usize) -> (r: Option<u64>)
    requires
        start + width <= s@.len(),
        start + width <= usize::MAX,
        width <= 12,
    ensures
        r matches Some(x) ==> {
            &&& forall|i: int|
                start <= i < start + width ==> 0 <= #[trigger] hex_val(s@[i]) < 16
            &&& x == hex_seq_val(s@.subrange(start as int, start + width))
            &&& x < pow16(width as nat)
        },
        r is None ==> exists|i: int| start <= i < start + width && hex_val(#[trigger] s@[i]) < 0,
{
    let mut acc: u64 = 0;
    let mut k: usize = 0;
    while k < width
        invariant
            start + width <= s@.len(),
            start + width <= usize::MAX,
            width <= 12,
            k <= width,
            forall|i: int| start <= i < start + k ==> 0 <= #[trigger] hex_val(s@[i]) < 16,
            acc == hex_seq_val(s@.subrange(start as int, start + k)),
            acc < pow16(k as nat),
        decreases width - k,
    {
        let ch = s.get_char(start + k);
        let v: u64 = match ch {
            '0' => 0,
            '1' => 1,
            '2' => 2,
            '3' => 3,
            '4' => 4,
            '5' => 5,
            '6' => 6,
            '7' => 7,
            '8' => 8,
            '9' => 9,
            'a' => 10,
            'b' => 11,
            'c' => 12,
            'd' => 13,
            'e' => 14,
            'f' => 15,
            _ => {
                proof {
                    assert(hex_val(s@[start + k]) < 0);
                }
                return None;
            },
        };
        proof {
            assert(hex_val(s@[start + k]) == v);
            lemma_pow16_at_most_12(k as nat);
            assert(acc * 16 + 15 < 16 * pow16(k as nat)) by (nonlinear_arith)
                requires
                    acc < pow16(k as nat),
                    0 <= acc,
                    pow16(k as nat) >= 1,
            ;
        }
        let next = acc * 16 + v;
        proof {
            let sub_next = s@.subrange(start as int, start + k + 1);
            assert(sub_next.drop_last() =~= s@.subrange(start as int, start + k));
            assert(sub_next.last() == s@[start + k]);
        }
        acc = next;
        k = k + 1;
    }
    proof {
        assert(pow16(width as nat) <= pow16(12)) by {
            lemma_pow16_monotone(width as nat, 12);
        }
    }
    Some(acc)
}

proof fn lemma_pow16_at_most_12(w: nat)
    requires
        w <= 12,
    ensures
        1 <= pow16(w),
        16 * pow16(w) <= 0x1_0000_0000_0000_0000,
    decreases w,
{
    reveal_with_fuel(pow16, 13);
    assert(pow16(12) == 0x1_0000_0000_0000);
    lemma_pow16_monotone(w, 12);
    lemma_pow16_positive(w);
}

proof fn lemma_pow16_positive(w: nat)
    ensures
        1 <= pow16(w),
    decreases w,
{
    if w > 0 {
        lemma_pow16_positive((w - 1) as nat);
    }
}

proof fn lemma_pow16_monotone(a: nat, b: nat)
    requires
        a <= b,
    ensures
        pow16(a) <= pow16(b),
    decreases b,
{
    lemma_pow16_positive(a);
    if a < b {
        lemma_pow16_monotone(a, (b - 1) as nat);
        lemma_pow16_positive((b - 1) as nat);
    }
}


/// Two identities with the same canonical rendering are the same identity.
pub proof fn lemma_id_chars_injective(h1: u64, l1: u64, h2: u64, l2: u64)
    requires
        id_chars(h1, l1) == id_chars(h2, l2),
    ensures
        h1 == h2,
        l1 == l2,
{
    reveal_with_fuel(pow16, 13);
    lemma_id_chars_shape(h1, l1);
    lemma_id_chars_shape(h2, l2);
    let s1 = id_chars(h1, l1);
    let s2 = id_chars(h2, l2);
    lemma_id_segments(h1, l1);
    lemma_id_segments(h2, l2);
    assert((h1 >> 32) < 0x1_0000_0000 && ((h1 >> 16) & 0xffff) < 0x1_0000 && (h1 & 0xffff)
        < 0x1_0000 && ((l1 >> 48) & 0xffff) < 0x1_0000 && (l1 & 0xffff_ffff_ffff)
        < 0x1_0000_0000_0000) by (bit_vector);
    assert((h2 >> 32) < 0x1_0000_0000 && ((h2 >> 16) & 0xffff) < 0x1_0000 && (h2 & 0xffff)
        < 0x1_0000 && ((l2 >> 48) & 0xffff) < 0x1_0000 && (l2 & 0xffff_ffff_ffff)
        < 0x1_0000_0000_0000) by (bit_vector);
    lemma_hex_fixed_val((h1 >> 32) as int, 8);
    lemma_hex_fixed_val(((h1 >> 16) & 0xffff) as int, 4);
    lemma_hex_fixed_val((h1 & 0xffff) as int, 4);
    lemma_hex_fixed_val(((l1 >> 48) & 0xffff) as int, 4);
    lemma_hex_fixed_val((l1 & 0xffff_ffff_ffff) as int, 12);
    lemma_hex_fixed_val((h2 >> 32) as int, 8);
    lemma_hex_fixed_val(((h2 >> 16) & 0xffff) as int, 4);
    lemma_hex_fixed_val((h2 & 0xffff) as int, 4);
    lemma_hex_fixed_val(((l2 >> 48) & 0xffff) as int, 4);
    lemma_hex_fixed_val((l2 & 0xffff_ffff_ffff) as int, 12);
    assert(s1.subrange(0, 8) == s2.subrange(0, 8));
    assert(s1.subrange(9, 13) == s2.subrange(9, 13));
    assert(s1.subrange(14, 18) == s2.subrange(14, 18));
    assert(s1.subrange(19, 23) == s2.subrange(19, 23));
    assert(s1.subrange(24, 36) == s2.subrange(24, 36));
    assert((h1 >> 32) == (h2 >> 32) && ((h1 >> 16) & 0xffff) == ((h2 >> 16) & 0xffff) && (h1
        & 0xffff) == (h2 & 0xffff) && ((l1 >> 48) & 0xffff) == ((l2 >> 48) & 0xffff) && (l1
        & 0xffff_ffff_ffff) == (l2 & 0xffff_ffff_ffff));
    assert(h1 == h2 && l1 == l2) by (bit_vector)
        requires
            (h1 >> 32) == (h2 >> 32),
            ((h1 >> 16) & 0xffff) == ((h2 >> 16) & 0xffff),
            (h1 & 0xffff) == (h2 & 0xffff),
            ((l1 >> 48) & 0xffff) == ((l2 >> 48) & 0xffff),
            (l1 & 0xffff_ffff_ffff) == (l2 & 0xffff_ffff_ffff),
    ;
}

/// The canonical rendering decomposes into its five digit groups.
proof fn lemma_id_segments(hi: u64, lo: u64)
    ensures
        id_chars(hi, lo).subrange(0, 8) == hex_fixed((hi >> 32) as int, 8),
        id_chars(hi, lo).subrange(9, 13) == hex_fixed(((hi >> 16) & 0xffff) as int, 4),
        id_chars(hi, lo).subrange(14, 18) == hex_fixed((hi & 0xffff) as int, 4),
        id_chars(hi, lo).subrange(19, 23) == hex_fixed(((lo >> 48) & 0xffff) as int, 4),
        id_chars(hi, lo).subrange(24, 36) == hex_fixed((lo & 0xffff_ffff_ffff) as int, 12),
{
    lemma_hex_fixed_len((hi >> 32) as int, 8);
    lemma_hex_fixed_len(((hi >> 16) & 0xffff) as int, 4);
    lemma_hex_fixed_len((hi & 0xffff) as int, 4);
    lemma_hex_fixed_len(((lo >> 48) & 0xffff) as int, 4);
    lemma_hex_fixed_len((lo & 0xffff_ffff_ffff) as int, 12);
    assert(id_chars(hi, lo).subrange(0, 8) =~= hex_fixed((hi >> 32) as int, 8));
    assert(id_chars(hi, lo).subrange(9, 13) =~= hex_fixed(((hi >> 16) & 0xffff) as int, 4));
    assert(id_chars(hi, lo).subrange(14, 18) =~= hex_fixed((hi & 0xffff) as int, 4));
    assert(id_chars(hi, lo).subrange(19, 23) =~= hex_fixed(((lo >> 48) & 0xffff) as int, 4));
    assert(id_chars(hi, lo).subrange(24, 36) =~= hex_fixed((lo & 0xffff_ffff_ffff) as int, 12));
}

/// Relies on `uuid::Uuid::new_v4`: a freshly drawn random identity.
/// Nothing is assumed about the drawn value.
#[verifier::external_body]
pub fn fresh_identity() -> Identity {
    let (hi, lo) = uuid::Uuid::new_v4().as_u64_pair();
    Identity { hi, lo }
}

} // verus!
