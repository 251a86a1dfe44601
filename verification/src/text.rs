//! Textual rendering of network-layer addresses: decimal dotted-quad for
//! IPv4 and the canonical compressed lowercase-hex form for IPv6.

use vstd::prelude::*;

verus! {

/// The decimal digit character for a value below ten.
pub open spec fn dec_digit(d: int) -> char {
    if d == 0 {
        '0'
    } else if d == 1 {
        '1'
    } else if d == 2 {
        '2'
    } else if d == 3 {
        '3'
    } else if d == 4 {
        '4'
    } else if d == 5 {
        '5'
    } else if d == 6 {
        '6'
    } else if d == 7 {
        '7'
    } else if d == 8 {
        '8'
    } else {
        '9'
    }
}

/// Decimal text of a nonnegative value, most significant digit first,
/// without leading zeros (a single `'0'` for zero).
pub open spec fn dec_text(n: int) -> Seq<char>
    decreases n,
{
    if n < 10 {
        seq![dec_digit(n)]
    } else {
        dec_text(n / 10).push(dec_digit(n % 10))
    }
}

/// One-character string for a decimal digit value.
fn digit_str(d: u8) -> (r: &'static str)
    requires
        d < 10,
    ensures
        r@ == seq![dec_digit(d as int)],
{
    proof {
        reveal_strlit("0");
        reveal_strlit("1");
        reveal_strlit("2");
        reveal_strlit("3");
        reveal_strlit("4");
        reveal_strlit("5");
        reveal_strlit("6");
        reveal_strlit("7");
        reveal_strlit("8");
        reveal_strlit("9");
    }
    let r = match d {
        0 => "0",
        1 => "1",
        2 => "2",
        3 => "3",
        4 => "4",
        5 => "5",
        6 => "6",
        7 => "7",
        8 => "8",
        _ => "9",
    };
    proof {
        assert(r@ =~= seq![dec_digit(d as int)]);
    }
    r
}

/// The lowercase hexadecimal digit character for a value below sixteen.
pub open spec fn hex_digit(d: int) -> char {
    if d < 10 {
        dec_digit(d)
    } else if d == 10 {
        'a'
    } else if d == 11 {
        'b'
    } else if d == 12 {
        'c'
    } else if d == 13 {
        'd'
    } else if d == 14 {
        'e'
    } else {
        'f'
    }
}

/// Lowercase hexadecimal text of a nonnegative value, most significant
/// digit first, without leading zeros (a single `'0'` for zero).
pub open spec fn hex_text(n: int) -> Seq<char>
    decreases n,
{
    if n < 16 {
        seq![hex_digit(n)]
    } else {
        hex_text(n / 16).push(hex_digit(n % 16))
    }
}

/// One-character string for a hexadecimal digit value.
fn hex_digit_str(d: u16) -> (r: &'static str)
    requires
        d < 16,
    ensures
        r@ == seq![hex_digit(d as int)],
{
    proof {
        reveal_strlit("a");
        reveal_strlit("b");
        reveal_strlit("c");
        reveal_strlit("d");
        reveal_strlit("e");
        reveal_strlit("f");
    }
    if d < 10 {
        digit_str(d as u8)
    } else {
        let r = match d {
            10 => "a",
            11 => "b",
            12 => "c",
            13 => "d",
            14 => "e",
            _ => "f",
        };
        proof {
            assert(r@ =~= seq![hex_digit(d as int)]);
        }
        r
    }
}

/// Appends the lowercase hexadecimal text of `n` to `s`.
pub fn push_hex_u16(s: &mut String, n: u16)
    ensures
        final(s)@ == old(s)@ + hex_text(n as int),
{
    let ghost pre = s@;
    if n >= 0x1000 {
        s.append(hex_digit_str(n / 0x1000));
    }
    if n >= 0x100 {
        s.append(hex_digit_str((n / 0x100) % 16));
    }
    if n >= 0x10 {
        s.append(hex_digit_str((n / 0x10) % 16));
    }
    s.append(hex_digit_str(n % 16));
    proof {
        let m = n as int;
        if n < 0x10 {
            assert(s@ =~= pre + hex_text(m));
        } else if n < 0x100 {
            assert(hex_text(m) == hex_text(m / 16).push(hex_digit(m % 16)));
            assert(m / 16 < 16);
            assert(s@ =~= pre + hex_text(m));
        } else if n < 0x1000 {
            assert(hex_text(m) == hex_text(m / 16).push(hex_digit(m % 16)));
            assert(m / 16 >= 16);
            assert(hex_text(m / 16) == hex_text(m / 16 / 16).push(hex_digit(m / 16 % 16)));
            assert(m / 16 / 16 < 16);
            assert(m / 16 / 16 == m / 0x100) by (nonlinear_arith);
            assert(s@ =~= pre + hex_text(m));
        } else {
            assert(hex_text(m) == hex_text(m / 16).push(hex_digit(m % 16)));
            assert(hex_text(m / 16) == hex_text(m / 16 / 16).push(hex_digit(m / 16 % 16)));
            assert(m / 16 / 16 == m / 0x100) by (nonlinear_arith);
            assert(m / 0x100 >= 16);
            assert(hex_text(m / 0x100) == hex_text(m / 0x100 / 16).push(hex_digit(m / 0x100 % 16)));
            assert(m / 0x100 / 16 == m / 0x1000) by (nonlinear_arith);
            assert(m / 0x1000 < 16);
            assert(s@ =~= pre + hex_text(m));
        }
    }
}

/// Appends the decimal text of `n` to `s`.
pub fn push_dec_u8(s: &mut String, n: u8)
    ensures
        final(s)@ == old(s)@ + dec_text(n as int),
{
    let ghost pre = s@;
    if n >= 100 {
        s.append(digit_str(n / 100));
    }
    if n >= 10 {
        s.append(digit_str((n / 10) % 10));
    }
    s.append(digit_str(n % 10));
    proof {
        if n < 10 {
            assert(s@ =~= pre + dec_text(n as int));
        } else if n < 100 {
            assert(dec_text(n as int) == dec_text(n as int / 10).push(dec_digit(n as int % 10)));
            assert(n as int / 10 < 10);
            assert(s@ =~= pre + dec_text(n as int));
        } else {
            assert(dec_text(n as int) == dec_text(n as int / 10).push(dec_digit(n as int % 10)));
            assert(n as int / 10 >= 10);
            assert(dec_text(n as int / 10) == dec_text(n as int / 10 / 10).push(
                dec_digit(n as int / 10 % 10),
            ));
            assert(n as int / 10 / 10 < 10);
            assert(n as int / 10 / 10 == n as int / 100) by (nonlinear_arith);
            assert(s@ =~= pre + dec_text(n as int));
        }
    }
}

/// Dotted-quad text of an IPv4 address given as four octets.
pub open spec fn ipv4_text(a: int, b: int, c: int, d: int) -> Seq<char> {
    dec_text(a) + seq!['.'] + dec_text(b) + seq!['.'] + dec_text(c) + seq!['.'] + dec_text(d)
}

/// Renders an IPv4 address as its dotted-quad string.
pub fn ipv4_string(a: u8, b: u8, c: u8, d: u8) -> (r: String)
    ensures
        r@ == ipv4_text(a as int, b as int, c as int, d as int),
{
    proof {
        reveal_strlit(".");
    }
    let mut s = String::new();
    push_dec_u8(&mut s, a);
    s.append(".");
    push_dec_u8(&mut s, b);
    s.append(".");
    push_dec_u8(&mut s, c);
    s.append(".");
    push_dec_u8(&mut s, d);
    proof {
        assert("."@ =~= seq!['.']);
        assert(s@ =~= ipv4_text(a as int, b as int, c as int, d as int));
    }
    s
}

/// Length of the run of zero groups that starts at position `i` of `g`.
pub open spec fn zero_run_at(g: Seq<u16>, i: int) -> int
    decreases g.len() - i when i <= g.len()
{
    if i < 0 || i >= g.len() || g[i] != 0 {
        0
    } else {
        1 + zero_run_at(g, i + 1)
    }
}

/// Leftmost start, at or after position `i`, of a longest run of zero
/// groups in `g` (`g.len()` itself when `i` is past the end).
pub open spec fn best_zero_run_from(g: Seq<u16>, i: int) -> int
    decreases g.len() - i when i <= g.len()
{
    if i >= g.len() {
        i
    } else {
        let rest = best_zero_run_from(g, i + 1);
        if zero_run_at(g, i) >= zero_run_at(g, rest) {
            i
        } else {
            rest
        }
    }
}

/// Text of the groups of `g` in lowercase hex, joined by `':'`.
pub open spec fn groups_text(g: Seq<u16>) -> Seq<char>
    decreases g.len(),
{
    if g.len() == 0 {
        Seq::empty()
    } else if g.len() == 1 {
        hex_text(g[0] as int)
    } else {
        groups_text(g.drop_last()) + seq![':'] + hex_text(g.last() as int)
    }
}

/// Whether the eight groups are an IPv4-mapped IPv6 address
/// (`::ffff:a.b.c.d`), which is rendered with a dotted-quad tail.
pub open spec fn ipv4_mapped(g: Seq<u16>) -> bool {
    g.len() == 8 && g[0] == 0 && g[1] == 0 && g[2] == 0 && g[3] == 0 && g[4] == 0 && g[5]
        == 0xffff
}

/// Canonical compressed text of an IPv6 address given as eight groups:
/// lowercase hex without leading zeros, the leftmost longest run of two
/// or more zero groups elided as `"::"`, and the IPv4-mapped form with a
/// dotted-quad tail.
pub open spec fn ipv6_text(g: Seq<u16>) -> Seq<char> {
    if ipv4_mapped(g) {
        seq![':', ':', 'f', 'f', 'f', 'f', ':'] + ipv4_text(
            g[6] as int / 256,
            g[6] as int % 256,
            g[7] as int / 256,
            g[7] as int % 256,
        )
    } else {
        let b = best_zero_run_from(g, 0);
        let l = zero_run_at(g, b);
        if l >= 2 {
            groups_text(g.take(b)) + seq![':', ':'] + groups_text(g.skip(b + l))
        } else {
            groups_text(g)
        }
    }
}

/// No zero run at or after position `i` is longer than the one starting
/// at `best_zero_run_from(g, i)`, and every earlier candidate starts a
/// strictly shorter run.
pub proof fn lemma_best_zero_run(g: Seq<u16>, i: int, j: int)
    requires
        0 <= i <= j < g.len(),
    ensures
        zero_run_at(g, j) <= zero_run_at(g, best_zero_run_from(g, i)),
        j < best_zero_run_from(g, i) ==> zero_run_at(g, j) < zero_run_at(
            g,
            best_zero_run_from(g, i),
        ),
    decreases j - i,
{
    if i < j {
        lemma_best_zero_run(g, i + 1, j);
    }
}

/// The chosen start position lies within the sequence whenever it is
/// nonempty.
proof fn lemma_best_in_range(g: Seq<u16>, i: int)
    requires
        0 <= i <= g.len(),
    ensures
        i <= best_zero_run_from(g, i) <= g.len(),
        i < g.len() ==> best_zero_run_from(g, i) < g.len(),
    decreases g.len() - i,
{
    if i < g.len() {
        lemma_best_in_range(g, i + 1);
    }
}

/// The run of zero groups that the compressed rendering elides is a
/// longest such run, and the leftmost among the longest: the rendering is
/// canonical, never `fe80:0:0:0:0:0:0:1` where `fe80::1` is meant.
pub proof fn lemma_compression_canonical(g: Seq<u16>)
    ensures
        forall|j: int|
            0 <= j < g.len() ==> #[trigger] zero_run_at(g, j) <= zero_run_at(
                g,
                best_zero_run_from(g, 0),
            ),
        forall|j: int|
            0 <= j < best_zero_run_from(g, 0) ==> #[trigger] zero_run_at(g, j) < zero_run_at(
                g,
                best_zero_run_from(g, 0),
            ),
{
    assert forall|j: int| 0 <= j < g.len() implies #[trigger] zero_run_at(g, j) <= zero_run_at(
        g,
        best_zero_run_from(g, 0),
    ) by {
        lemma_best_zero_run(g, 0, j);
    }
    assert forall|j: int| 0 <= j < best_zero_run_from(g, 0) implies #[trigger] zero_run_at(g, j)
        < zero_run_at(g, best_zero_run_from(g, 0)) by {
        lemma_best_in_range(g, 0);
        lemma_best_zero_run(g, 0, j);
    }
}

/// Appends the `':'`-joined hex text of `groups[from..to]` to `s`.
fn push_groups(s: &mut String, groups: &Vec<u16>, from: usize, to: usize)
    requires
        from <= to <= groups@.len(),
    ensures
        final(s)@ == old(s)@ + groups_text(groups@.subrange(from as int, to as int)),
{
    let mut k = from;
    proof {
        assert(s@ =~= s@ + groups_text(groups@.subrange(from as int, from as int)));
    }
    while k < to
        invariant
            from <= k <= to <= groups@.len(),
            s@ == old(s)@ + groups_text(groups@.subrange(from as int, k as int)),
        decreases to - k,
    {
        if k > from {
            s.append(":");
        }
        push_hex_u16(s, groups[k]);
        proof {
            reveal_strlit(":");
            let sub = groups@.subrange(from as int, k + 1);
            assert(sub.last() == groups@[k as int]);
            assert(sub.drop_last() =~= groups@.subrange(from as int, k as int));
            assert(":"@ =~= seq![':']);
            if k == from {
                assert(sub.len() == 1);
                assert(groups_text(sub) == hex_text(sub[0] as int));
                assert(s@ =~= old(s)@ + groups_text(sub));
            } else {
                assert(groups_text(sub) == groups_text(sub.drop_last()) + seq![':'] + hex_text(
                    sub.last() as int,
                ));
                assert(s@ =~= old(s)@ + groups_text(sub));
            }
        }
        k += 1;
    }
}

/// Renders an IPv6 address, given as its eight 16-bit groups, in the
/// canonical compressed form described by `ipv6_text`.
pub fn ipv6_string(groups: &Vec<u16>) -> (r: String)
    requires
        groups@.len() == 8,
    ensures
        r@ == ipv6_text(groups@),
{
    if groups[0] == 0 && groups[1] == 0 && groups[2] == 0 && groups[3] == 0 && groups[4] == 0
        && groups[5] == 0xffff {
        proof {
            reveal_strlit("::ffff:");
        }
        let mut s = String::new();
        s.append("::ffff:");
        let quad = ipv4_string(
            (groups[6] / 256) as u8,
            (groups[6] % 256) as u8,
            (groups[7] / 256) as u8,
            (groups[7] % 256) as u8,
        );
        s.append(quad.as_str());
        proof {
            assert("::ffff:"@ =~= seq![':', ':', 'f', 'f', 'f', 'f', ':']);
            assert(s@ =~= ipv6_text(groups@));
        }
        return s;
    }
    let mut j: usize = 8;
    let mut prev_run: usize = 0;
    let mut best: usize = 8;
    let mut best_run: usize = 0;
    while j > 0
        invariant
            j <= 8,
            groups@.len() == 8,
            prev_run == zero_run_at(groups@, j as int),
            prev_run <= 8 - j,
            best == best_zero_run_from(groups@, j as int),
            best <= 8,
            best_run == zero_run_at(groups@, best as int),
            best_run <= 8 - best,
        decreases j,
    {
        j -= 1;
        let r: usize = if groups[j] == 0 {
            prev_run + 1
        } else {
            0
        };
        proof {
            assert(r == zero_run_at(groups@, j as int));
        }
        if r >= best_run {
            best = j;
            best_run = r;
        }
        prev_run = r;
    }
    let mut s = String::new();
    if best_run >= 2 {
        proof {
            reveal_strlit("::");
        }
        push_groups(&mut s, groups, 0, best);
        s.append("::");
        push_groups(&mut s, groups, best + best_run, 8);
        proof {
            assert(groups@.subrange(0, best as int) =~= groups@.take(best as int));
            assert(groups@.subrange((best + best_run) as int, 8) =~= groups@.skip(
                best as int + best_run as int,
            ));
            assert("::"@ =~= seq![':', ':']);
            assert(s@ =~= ipv6_text(groups@));
        }
    } else {
        push_groups(&mut s, groups, 0, 8);
        proof {
            assert(groups@.subrange(0, 8) =~= groups@);
            assert(s@ =~= ipv6_text(groups@));
        }
    }
    s
}

} // verus!
