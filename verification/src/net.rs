//! Network addresses of machines, as plain integers.
use vstd::prelude::*;
use vstd::string::*;

verus! {

/// An IPv4 address as its 32-bit big-endian value, or an IPv6 address as
/// its 128-bit value.
#[derive(Clone, Copy, PartialEq, Eq, Structural, Debug, Hash)]
pub enum IpAddress {
    V4(u32),
    V6(u128),
}

/// Private IPv4 ranges (10/8, 172.16/12, 192.168/16), IPv4 link-local
/// (169.254/16), IPv6 unique-local (fc00::/7) and IPv6 link-local (fe80::/10).
pub open spec fn is_local_network(ip: IpAddress) -> bool {
    match ip {
        IpAddress::V4(a) => {
            ||| a / 0x100_0000 == 10
            ||| a / 0x10_0000 == 0xAC1
            ||| a / 0x1_0000 == 0xC0A8
            ||| a / 0x1_0000 == 0xA9FE
        },
        IpAddress::V6(a) => {
            ||| a / 0x200_0000_0000_0000_0000_0000_0000_0000 == 0x7E
            ||| a / 0x40_0000_0000_0000_0000_0000_0000_0000 == 0x3FA
        },
    }
}

impl IpAddress {
    /// The IPv4 address `a.b.c.d`.
    pub fn v4(a: u8, b: u8, c: u8, d: u8) -> (r: IpAddress)
        ensures
            r matches IpAddress::V4(x) && x == a * 0x100_0000 + b * 0x1_0000 + c * 0x100 + d,
    {
        IpAddress::V4((a as u32) * 0x100_0000 + (b as u32) * 0x1_0000 + (c as u32) * 0x100 + (
        d as u32))
    }
}

/// Whether the address lies on a local network, where machines are reached.
pub fn is_local_network_ip(ip: IpAddress) -> (r: bool)
    ensures
        r == is_local_network(ip),
{
    match ip {
        IpAddress::V4(a) => {
            a / 0x100_0000 == 10 || a / 0x10_0000 == 0xAC1 || a / 0x1_0000 == 0xC0A8 || a
                / 0x1_0000 == 0xA9FE
        },
        IpAddress::V6(a) => {
            a / 0x200_0000_0000_0000_0000_0000_0000_0000 == 0x7E || a
                / 0x40_0000_0000_0000_0000_0000_0000_0000 == 0x3FA
        },
    }
}

/// The digits of numerals in bases up to 16.
pub open spec fn digit_chars() -> Seq<char> {
    seq!['0', '1', '2', '3', '4', '5', '6', '7', '8', '9', 'a', 'b', 'c', 'd', 'e', 'f']
}

/// The decimal numeral of `n`, without leading zeros.
pub open spec fn dec_text(n: nat) -> Seq<char>
    decreases n,
{
    if n < 10 {
        seq![digit_chars()[n as int]]
    } else {
        dec_text(n / 10).push(digit_chars()[(n % 10) as int])
    }
}

/// The lowercase hexadecimal numeral of `n`, without leading zeros.
pub open spec fn hex_text(n: nat) -> Seq<char>
    decreases n,
{
    if n < 16 {
        seq![digit_chars()[n as int]]
    } else {
        hex_text(n / 16).push(digit_chars()[(n % 16) as int])
    }
}

/// An IPv4 address, given as its 32-bit value, in dotted decimal.
pub open spec fn v4_text(a: nat) -> Seq<char> {
    dec_text(a / 0x100_0000) + seq!['.'] + dec_text((a / 0x1_0000) % 256) + seq!['.'] + dec_text(
        (a / 256) % 256,
    ) + seq!['.'] + dec_text(a % 256)
}

/// The last `k` 16-bit segments of `v`, most significant first.
pub open spec fn segments(v: nat, k: nat) -> Seq<nat>
    decreases k,
{
    if k == 0 {
        Seq::empty()
    } else {
        segments(v / 0x1_0000, (k - 1) as nat).push(v % 0x1_0000)
    }
}

/// The segments form an IPv4-mapped IPv6 address (`::ffff:a.b.c.d`).
pub open spec fn is_v4_mapped(s: Seq<nat>) -> bool {
    s[0] == 0 && s[1] == 0 && s[2] == 0 && s[3] == 0 && s[4] == 0 && s[5] == 0xffff
}

/// Scanning the first `k` segments for runs of zeros: the first longest run
/// (start, length) and the run in progress (start, length).
pub open spec fn zero_scan(s: Seq<nat>, k: nat) -> (nat, nat, nat, nat)
    decreases k,
{
    if k == 0 {
        (0, 0, 0, 0)
    } else {
        let (bs, bl, cs, cl) = zero_scan(s, (k - 1) as nat);
        if s[k - 1] == 0 {
            let ncs = if cl == 0 {
                (k - 1) as nat
            } else {
                cs
            };
            let ncl = cl + 1;
            if ncl > bl {
                (ncs, ncl, ncs, ncl)
            } else {
                (bs, bl, ncs, ncl)
            }
        } else {
            (bs, bl, 0, 0)
        }
    }
}

/// Hexadecimal segments joined by colons.
pub open spec fn join_hex(s: Seq<nat>) -> Seq<char>
    decreases s.len(),
{
    if s.len() == 0 {
        Seq::empty()
    } else if s.len() == 1 {
        hex_text(s[0])
    } else {
        join_hex(s.drop_last()) + seq![':'] + hex_text(s.last())
    }
}

/// An IPv6 address in the canonical text form of RFC 5952: IPv4-mapped
/// addresses as `::ffff:a.b.c.d`, otherwise lowercase hexadecimal segments
/// with the first longest run of two or more zero segments written `::`.
pub open spec fn v6_text(v: nat) -> Seq<char> {
    let s = segments(v, 8);
    if is_v4_mapped(s) {
        seq![':', ':', 'f', 'f', 'f', 'f', ':'] + v4_text(s[6] * 0x1_0000 + s[7])
    } else {
        let (bs, bl, _, _) = zero_scan(s, 8);
        if bl > 1 {
            join_hex(s.subrange(0, bs as int)) + seq![':', ':'] + join_hex(
                s.subrange((bs + bl) as int, 8),
            )
        } else {
            join_hex(s)
        }
    }
}

/// The text form of an address.
pub open spec fn ip_text(ip: IpAddress) -> Seq<char> {
    match ip {
        IpAddress::V4(a) => v4_text(a as nat),
        IpAddress::V6(a) => v6_text(a as nat),
    }
}

fn digit_str(d: u32) -> (r: &'static str)
    requires
        d < 16,
    ensures
        r@ == seq![digit_chars()[d as int]],
{
    match d {
        0 => {
            proof {
                reveal_strlit("0");
            }
            assert("0"@ =~= seq!['0']);
            "0"
        },
        1 => {
            proof {
                reveal_strlit("1");
            }
            assert("1"@ =~= seq!['1']);
            "1"
        },
        2 => {
            proof {
                reveal_strlit("2");
            }
            assert("2"@ =~= seq!['2']);
            "2"
        },
        3 => {
            proof {
                reveal_strlit("3");
            }
            assert("3"@ =~= seq!['3']);
            "3"
        },
        4 => {
            proof {
                reveal_strlit("4");
            }
            assert("4"@ =~= seq!['4']);
            "4"
        },
        5 => {
            proof {
                reveal_strlit("5");
            }
            assert("5"@ =~= seq!['5']);
            "5"
        },
        6 => {
            proof {
                reveal_strlit("6");
            }
            assert("6"@ =~= seq!['6']);
            "6"
        },
        7 => {
            proof {
                reveal_strlit("7");
            }
            assert("7"@ =~= seq!['7']);
            "7"
        },
        8 => {
            proof {
                reveal_strlit("8");
            }
            assert("8"@ =~= seq!['8']);
            "8"
        },
        9 => {
            proof {
                reveal_strlit("9");
            }
            assert("9"@ =~= seq!['9']);
            "9"
        },
        10 => {
            proof {
                reveal_strlit("a");
            }
            assert("a"@ =~= seq!['a']);
            "a"
        },
        11 => {
            proof {
                reveal_strlit("b");
            }
            assert("b"@ =~= seq!['b']);
            "b"
        },
        12 => {
            proof {
                reveal_strlit("c");
            }
            assert("c"@ =~= seq!['c']);
            "c"
        },
        13 => {
            proof {
                reveal_strlit("d");
            }
            assert("d"@ =~= seq!['d']);
            "d"
        },
        14 => {
            proof {
                reveal_strlit("e");
            }
            assert("e"@ =~= seq!['e']);
            "e"
        },
        15 => {
            proof {
                reveal_strlit("f");
            }
            assert("f"@ =~= seq!['f']);
            "f"
        },
        _ => {
            proof {
                reveal_strlit("f");
            }
            assert("f"@ =~= seq!['f']);
            "f"
        },
    }
}

fn push_dec(s: &mut String, n: u32)
    ensures
        final(s)@ == old(s)@ + dec_text(n as nat),
    decreases n,
{
    if n >= 10 {
        push_dec(s, n / 10);
    }
    let ghost before = s@;
    s.append(digit_str(n % 10));
    proof {
        if n >= 10 {
            assert(s@ =~= old(s)@ + dec_text((n / 10) as nat).push(digit_chars()[(n % 10) as int]));
        } else {
            assert(s@ =~= old(s)@ + dec_text(n as nat));
        }
    }
}

fn push_hex(s: &mut String, n: u32)
    ensures
        final(s)@ == old(s)@ + hex_text(n as nat),
    decreases n,
{
    if n >= 16 {
        push_hex(s, n / 16);
    }
    s.append(digit_str(n % 16));
    proof {
        if n >= 16 {
            assert(s@ =~= old(s)@ + hex_text((n / 16) as nat).push(digit_chars()[(n % 16) as int]));
        } else {
            assert(s@ =~= old(s)@ + hex_text(n as nat));
        }
    }
}

fn push_text(s: &mut String, t: &str)
    ensures
        final(s)@ == old(s)@ + t@,
{
    s.append(t);
}

fn push_v4(s: &mut String, a: u32)
    ensures
        final(s)@ == old(s)@ + v4_text(a as nat),
{
    proof {
        reveal_strlit(".");
    }
    let ghost s0 = s@;
    push_dec(s, a / 0x100_0000);
    push_text(s, ".");
    push_dec(s, (a / 0x1_0000) % 256);
    push_text(s, ".");
    push_dec(s, (a / 256) % 256);
    push_text(s, ".");
    push_dec(s, a % 256);
    assert("."@ =~= seq!['.']);
    assert(s@ =~= s0 + v4_text(a as nat));
}

/// The numbers of a list of segments.
pub open spec fn nats(v: Seq<u32>) -> Seq<nat> {
    v.map_values(|x: u32| x as nat)
}

fn segment_vec(v: u128, k: usize) -> (r: Vec<u32>)
    requires
        k <= 8,
    ensures
        nats(r@) == segments(v as nat, k as nat),
        r@.len() == k,
        forall|i: int| 0 <= i < k ==> r@[i] < 0x1_0000,
    decreases k,
{
    if k == 0 {
        let r: Vec<u32> = Vec::new();
        assert(nats(r@) =~= segments(v as nat, 0));
        r
    } else {
        let mut r = segment_vec(v / 0x1_0000, k - 1);
        let ghost before = r@;
        r.push((v % 0x1_0000) as u32);
        assert(nats(r@) =~= nats(before).push((v % 0x1_0000) as nat));
        r
    }
}

proof fn lemma_zero_scan_bounds(s: Seq<nat>, k: nat)
    ensures
        zero_scan(s, k).0 + zero_scan(s, k).1 <= k,
        zero_scan(s, k).3 > 0 ==> zero_scan(s, k).2 + zero_scan(s, k).3 == k,
    decreases k,
{
    if k > 0 {
        lemma_zero_scan_bounds(s, (k - 1) as nat);
    }
}

fn push_joined_hex(s: &mut String, segs: &Vec<u32>, lo: usize, hi: usize)
    requires
        lo <= hi <= segs@.len(),
        forall|i: int| 0 <= i < segs@.len() ==> segs@[i] < 0x1_0000,
    ensures
        final(s)@ == old(s)@ + join_hex(nats(segs@).subrange(lo as int, hi as int)),
{
    proof {
        reveal_strlit(":");
    }
    assert(":"@ =~= seq![':']);
    let ghost s0 = s@;
    let ghost n = nats(segs@);
    let mut i = lo;
    assert(n.subrange(lo as int, lo as int).len() == 0);
    assert(s@ =~= s0 + join_hex(n.subrange(lo as int, lo as int)));
    while i < hi
        invariant
            lo <= i <= hi <= segs@.len(),
            n == nats(segs@),
            ":"@ == seq![':'],
            s@ == s0 + join_hex(n.subrange(lo as int, i as int)),
        decreases hi - i,
    {
        let ghost before = s@;
        let ghost t = n.subrange(lo as int, i + 1);
        if i > lo {
            push_text(s, ":");
        }
        push_hex(s, segs[i]);
        proof {
            assert(t.last() == segs@[i as int] as nat);
            if i > lo {
                assert(t.drop_last() =~= n.subrange(lo as int, i as int));
                assert(s@ =~= s0 + join_hex(t));
            } else {
                assert(t.len() == 1);
                assert(s@ =~= s0 + join_hex(t));
            }
        }
        i = i + 1;
    }
}

fn push_v6(s: &mut String, v: u128)
    ensures
        final(s)@ == old(s)@ + v6_text(v as nat),
{
    let ghost s0 = s@;
    let segs = segment_vec(v, 8);
    let ghost n = nats(segs@);
    assert(n == segments(v as nat, 8));
    if segs[0] == 0 && segs[1] == 0 && segs[2] == 0 && segs[3] == 0 && segs[4] == 0 && segs[5]
        == 0xffff {
        proof {
            reveal_strlit("::ffff:");
        }
        push_text(s, "::ffff:");
        push_v4(s, segs[6] * 0x1_0000 + segs[7]);
        assert("::ffff:"@ =~= seq![':', ':', 'f', 'f', 'f', 'f', ':']);
        assert(s@ =~= s0 + v6_text(v as nat));
        return;
    }
    let mut best_start: usize = 0;
    let mut best_len: usize = 0;
    let mut cur_start: usize = 0;
    let mut cur_len: usize = 0;
    let mut i: usize = 0;
    while i < 8
        invariant
            segs@.len() == 8,
            n == nats(segs@),
            i <= 8,
            (best_start as nat, best_len as nat, cur_start as nat, cur_len as nat) == zero_scan(
                n,
                i as nat,
            ),
        decreases 8 - i,
    {
        proof {
            lemma_zero_scan_bounds(n, i as nat);
        }
        if segs[i] == 0 {
            if cur_len == 0 {
                cur_start = i;
            }
            cur_len = cur_len + 1;
            if cur_len > best_len {
                best_start = cur_start;
                best_len = cur_len;
            }
        } else {
            cur_start = 0;
            cur_len = 0;
        }
        i = i + 1;
    }
    proof {
        lemma_zero_scan_bounds(n, 8);
    }
    if best_len > 1 {
        proof {
            reveal_strlit("::");
        }
        push_joined_hex(s, &segs, 0, best_start);
        push_text(s, "::");
        push_joined_hex(s, &segs, best_start + best_len, 8);
        assert("::"@ =~= seq![':', ':']);
        assert(s@ =~= s0 + v6_text(v as nat));
    } else {
        push_joined_hex(s, &segs, 0, 8);
        assert(n.subrange(0, 8) =~= n);
        assert(s@ =~= s0 + v6_text(v as nat));
    }
}

/// Appends the text form of `ip` (see [`ip_text`]).
pub fn push_ip(s: &mut String, ip: IpAddress)
    ensures
        final(s)@ == old(s)@ + ip_text(ip),
{
    match ip {
        IpAddress::V4(a) => push_v4(s, a),
        IpAddress::V6(a) => push_v6(s, a),
    }
}

} // verus!
