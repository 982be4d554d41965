//! The computational half of the wake request: turning a stored MAC address
//! string into the six hardware-address bytes of a magic packet.
//!
//! The grammar is forgiving: the string is split at every `:` or `-`, each
//! piece that reads as a hexadecimal byte (an optional leading `+`, then hex
//! digits, value at most 255) contributes one byte, pieces that do not are
//! skipped, and the address is accepted exactly when six pieces contributed.

use vstd::prelude::*;
use vstd::string::*;

verus! {

/// Whether `c` separates two pieces of a MAC address string.
pub open spec fn is_sep(c: char) -> bool {
    c == ':' || c == '-'
}

/// The value of one hexadecimal digit: `0`-`9`, `a`-`f` or `A`-`F`.
pub open spec fn hex_val(c: char) -> Option<int> {
    let v = c as u32;
    if 48 <= v <= 57 {
        Some((v - 48) as int)
    } else if 97 <= v <= 102 {
        Some((v - 87) as int)
    } else if 65 <= v <= 70 {
        Some((v - 55) as int)
    } else {
        None
    }
}

/// The value of a digit string read left to right on top of `acc`, or `None`
/// at the first non-digit.
pub open spec fn hex_digits_val(s: Seq<char>, acc: int) -> Option<int>
    decreases s.len(),
{
    if s.len() == 0 {
        Some(acc)
    } else {
        match hex_val(s[0]) {
            Some(d) => hex_digits_val(s.drop_first(), acc * 16 + d),
            None => None,
        }
    }
}

/// The byte one piece contributes, if any: an optional leading `+`, then at
/// least one hex digit, and a value that fits in a byte.
pub open spec fn seg_byte(seg: Seq<char>) -> Option<int> {
    let body = if seg.len() >= 1 && seg[0] == '+' {
        seg.drop_first()
    } else {
        seg
    };
    if body.len() == 0 {
        None
    } else {
        match hex_digits_val(body, 0) {
            Some(v) => if v <= 255 {
                Some(v)
            } else {
                None
            },
            None => None,
        }
    }
}

/// The position of the first separator, if any.
pub open spec fn first_sep(s: Seq<char>) -> Option<int>
    decreases s.len(),
{
    if s.len() == 0 {
        None
    } else if is_sep(s[0]) {
        Some(0)
    } else {
        match first_sep(s.drop_first()) {
            Some(k) => Some(k + 1),
            None => None,
        }
    }
}

/// The pieces of the string, split at every separator; empty pieces are
/// kept (they simply contribute nothing).
pub open spec fn split_segs(s: Seq<char>) -> Seq<Seq<char>>
    decreases s.len(),
{
    match first_sep(s) {
        None => seq![s],
        Some(i) => {
            if 0 <= i < s.len() {
                seq![s.subrange(0, i)] + split_segs(s.subrange(i + 1, s.len() as int))
            } else {
                seq![s]
            }
        },
    }
}

/// The bytes contributed by a list of pieces, in order.
pub open spec fn parsed_bytes(segs: Seq<Seq<char>>) -> Seq<int>
    decreases segs.len(),
{
    if segs.len() == 0 {
        Seq::empty()
    } else {
        match seg_byte(segs[0]) {
            Some(v) => seq![v] + parsed_bytes(segs.drop_first()),
            None => parsed_bytes(segs.drop_first()),
        }
    }
}

/// The hardware address a MAC string denotes: the contributed bytes, exactly
/// when there are six of them.
pub open spec fn spec_parse_mac(s: Seq<char>) -> Option<Seq<int>> {
    let b = parsed_bytes(split_segs(s));
    if b.len() == 6 {
        Some(b)
    } else {
        None
    }
}

/// A scan that found no separator before `j`, and one at `j` unless the
/// string ended, has found the first separator.
proof fn lemma_first_sep_at(s: Seq<char>, j: int)
    requires
        0 <= j <= s.len(),
        forall|k: int| 0 <= k < j ==> !is_sep(#[trigger] s[k]),
        j < s.len() ==> is_sep(s[j]),
    ensures
        first_sep(s) == if j == s.len() {
            None::<int>
        } else {
            Some(j)
        },
    decreases s.len(),
{
    if s.len() == 0 {
    } else if is_sep(s[0]) {
        assert(j == 0);
    } else {
        assert(j >= 1);
        let t = s.drop_first();
        assert forall|k: int| 0 <= k < j - 1 implies !is_sep(#[trigger] t[k]) by {
            assert(t[k] == s[k + 1]);
        }
        lemma_first_sep_at(t, j - 1);
    }
}

/// The value of one hexadecimal digit, executable form.
fn hex_digit(c: char) -> (r: Option<u8>)
    ensures
        match r {
            Some(d) => hex_val(c) == Some(d as int),
            None => hex_val(c) is None,
        },
{
    let v = c as u32;
    if 48 <= v && v <= 57 {
        Some((v - 48) as u8)
    } else if 97 <= v && v <= 102 {
        Some((v - 87) as u8)
    } else if 65 <= v && v <= 70 {
        Some((v - 55) as u8)
    } else {
        None
    }
}

/// Read one piece as a hexadecimal byte, executable form.
#[verifier::loop_isolation(false)]
fn seg_to_byte(seg: &str) -> (r: Option<u8>)
    ensures
        match r {
            Some(b) => seg_byte(seg@) == Some(b as int),
            None => seg_byte(seg@) is None,
        },
{
    let m = seg.unicode_len();
    if m == 0 {
        return None;
    }
    let start: usize = if seg.get_char(0) == '+' {
        1
    } else {
        0
    };
    let ghost body = if seg@[0] == '+' {
        seg@.drop_first()
    } else {
        seg@
    };
    proof {
        assert(body =~= seg@.subrange(start as int, m as int));
    }
    if m == start {
        return None;
    }
    let mut k: usize = start;
    let mut acc: u32 = 0;
    let ghost mut v: int = 0;
    while k < m
        invariant
            start <= k <= m,
            m == seg@.len(),
            body == seg@.subrange(start as int, m as int),
            body.len() > 0,
            hex_digits_val(body, 0) == hex_digits_val(seg@.subrange(k as int, m as int), v),
            v >= 0,
            v <= 255 ==> acc == v,
            v > 255 ==> acc == 256,
        decreases m - k,
    {
        let c = seg.get_char(k);
        let ghost rest = seg@.subrange(k as int, m as int);
        let ghost rest1 = seg@.subrange(k as int + 1, m as int);
        proof {
            assert(rest.len() > 0);
            assert(rest[0] == seg@[k as int]);
            assert(rest.drop_first() =~= rest1);
        }
        let d = match hex_digit(c) {
            Some(d) => d,
            None => {
                proof {
                    assert(hex_digits_val(rest, v) is None);
                    assert(hex_digits_val(body, 0) is None);
                    assert(seg_byte(seg@) is None);
                }
                return None;
            },
        };
        proof {
            assert(hex_digits_val(rest, v) == hex_digits_val(rest1, v * 16 + d as int));
            v = v * 16 + d as int;
        }
        if acc > 255 {
            acc = 256;
        } else {
            acc = acc * 16 + (d as u32);
            if acc > 255 {
                acc = 256;
            }
        }
        k = k + 1;
    }
    proof {
        assert(seg@.subrange(m as int, m as int) =~= Seq::<char>::empty());
        assert(hex_digits_val(body, 0) == Some(v));
    }
    if acc <= 255 {
        Some(acc as u8)
    } else {
        None
    }
}

/// Parse a MAC address string into its six bytes; pieces that do not read
/// as a hexadecimal byte are skipped, and the result is the contributed
/// bytes exactly when six pieces contributed.
pub fn parse_mac(mac: &str) -> (r: Option<Vec<u8>>)
    ensures
        match r {
            Some(v) => v@.len() == 6 && spec_parse_mac(mac@) == Some(
                v@.map_values(|b: u8| b as int),
            ),
            None => spec_parse_mac(mac@) is None,
        },
{
    let n = mac.unicode_len();
    let ghost s = mac@;
    let ghost total = parsed_bytes(split_segs(s));
    let mut out: Vec<u8> = Vec::new();
    let mut p: usize = 0;
    proof {
        assert(s.subrange(0, n as int) =~= s);
        assert(out@.map_values(|b: u8| b as int) =~= Seq::<int>::empty());
        assert(out@.map_values(|b: u8| b as int) + parsed_bytes(split_segs(s)) =~= parsed_bytes(
            split_segs(s),
        ));
    }
    loop
        invariant_except_break
            p <= n,
            out@.map_values(|b: u8| b as int) + parsed_bytes(
                split_segs(s.subrange(p as int, n as int)),
            ) == total,
        invariant
            n == s.len(),
            s == mac@,
        ensures
            out@.map_values(|b: u8| b as int) == total,
        decreases n - p,
    {
        let mut j: usize = p;
        loop
            invariant_except_break
                p <= j <= n,
                forall|k: int| p <= k < j ==> !is_sep(#[trigger] s[k]),
            invariant
                n == s.len(),
                s == mac@,
                p <= n,
            ensures
                p <= j <= n,
                forall|k: int| p <= k < j ==> !is_sep(#[trigger] s[k]),
                j == n || is_sep(s[j as int]),
            decreases n - j,
        {
            if j >= n {
                break ;
            }
            let c = mac.get_char(j);
            if c == ':' || c == '-' {
                break ;
            }
            proof {
                assert(!is_sep(s[j as int]));
            }
            j = j + 1;
        }
        let ghost suffix = s.subrange(p as int, n as int);
        proof {
            assert forall|k: int| 0 <= k < j - p implies !is_sep(#[trigger] suffix[k]) by {
                assert(suffix[k] == s[p + k]);
            }
            if j < n {
                assert(suffix[j - p] == s[j as int]);
            }
            lemma_first_sep_at(suffix, j - p);
        }
        let seg = mac.substring_char(p, j);
        proof {
            assert(seg@ =~= suffix.subrange(0, j - p));
        }
        let ghost before = out@.map_values(|b: u8| b as int);
        let parsed = seg_to_byte(seg);
        if let Some(b) = parsed {
            out.push(b);
            proof {
                assert(out@ =~= out@.subrange(0, out@.len() - 1).push(b));
                assert(out@.map_values(|x: u8| x as int) =~= before.push(b as int));
            }
        }
        let ghost after = out@.map_values(|b: u8| b as int);
        proof {
            let segs = split_segs(suffix);
            let empty_segs = Seq::<Seq<char>>::empty();
            assert(parsed_bytes(empty_segs) =~= Seq::<int>::empty());
            if j == n {
                assert(segs == seq![suffix]);
                assert(seg@ =~= suffix);
                assert(segs.drop_first() =~= empty_segs);
                match seg_byte(suffix) {
                    Some(v) => {
                        assert(parsed_bytes(segs) =~= seq![v]);
                        assert(after =~= before + seq![v]);
                    },
                    None => {
                        assert(parsed_bytes(segs) =~= Seq::<int>::empty());
                        assert(after == before);
                    },
                }
                assert(after =~= before + parsed_bytes(segs));
                assert(after == total);
            } else {
                let rest = suffix.subrange(j - p + 1, suffix.len() as int);
                assert(segs == seq![suffix.subrange(0, j - p)] + split_segs(rest));
                assert(segs[0] == seg@);
                assert(segs.drop_first() =~= split_segs(rest));
                assert(rest =~= s.subrange(j as int + 1, n as int));
                match seg_byte(seg@) {
                    Some(v) => {
                        assert(parsed_bytes(segs) =~= seq![v] + parsed_bytes(split_segs(rest)));
                        assert(after =~= before + seq![v]);
                        assert(after + parsed_bytes(split_segs(rest)) =~= before + parsed_bytes(
                            segs,
                        ));
                    },
                    None => {
                        assert(parsed_bytes(segs) =~= parsed_bytes(split_segs(rest)));
                        assert(after == before);
                    },
                }
                assert(after + parsed_bytes(split_segs(s.subrange(j as int + 1, n as int)))
                    == total);
            }
        }
        if j == n {
            break ;
        }
        p = j + 1;
    }
    if out.len() == 6 {
        Some(out)
    } else {
        None
    }
}

} // verus!
