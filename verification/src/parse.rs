//! Text helpers: the port and host scanners used on address strings, a
//! decimal reader with parse-or-zero semantics, and the dotted-decimal
//! IPv4 address reader.
//!
//! The scanners slice exactly as the stack's URL handling always has,
//! stated precisely over the scan; inputs on which that slicing would
//! fall outside the string are excluded by precondition.

use vstd::prelude::*;
use vstd::string::*;

use crate::conn::Ipv4Addr;

verus! {

/// The port scanner's state after reading `s` from position `i`: `a` is
/// one past the last colon seen, `b` counts the digits seen; the scan
/// stops at the first character that is neither a digit nor a colon.
pub open spec fn port_scan(s: Seq<char>, i: int, a: int, b: int) -> (int, int)
    decreases s.len() - i,
{
    if i < 0 || i >= s.len() {
        (a, b)
    } else if 48 <= s[i] as u32 <= 57 {
        port_scan(s, i + 1, a, b + 1)
    } else if s[i] == ':' {
        port_scan(s, i + 1, i + 1, b)
    } else {
        (a, b)
    }
}

/// Index of the first `:` or `/` at or after `i`, or the length of `s`.
pub open spec fn host_scan(s: Seq<char>, i: int) -> int
    decreases s.len() - i,
{
    if i < 0 || i >= s.len() {
        s.len() as int
    } else if s[i] == ':' || s[i] == '/' {
        i
    } else {
        host_scan(s, i + 1)
    }
}

/// Index of the first occurrence of `c` at or after `i`, or the length.
pub open spec fn find_from(s: Seq<char>, i: int, c: char) -> int
    decreases s.len() - i,
{
    if i < 0 || i >= s.len() {
        s.len() as int
    } else if s[i] == c {
        i
    } else {
        find_from(s, i + 1, c)
    }
}

/// Get the port out of an address string: the digits after the last colon
/// of the scanned prefix, by the scan above.
pub fn parse_port<'a>(string: &'a str) -> (r: &'a str)
    requires
        string.is_ascii(),
        ({
            let (a, b) = port_scan(string@, 0, 0, 0);
            a <= b + 1 <= string@.len()
        }),
    ensures
        ({
            let (a, b) = port_scan(string@, 0, 0, 0);
            r@ == string@.subrange(a, b + 1)
        }),
{
    let len = string.unicode_len();
    let mut n: usize = 0;
    let mut a: usize = 0;
    let mut b: usize = 0;
    let mut stop = false;
    while n < len && !stop
        invariant
            string.is_ascii(),
            n <= len == string@.len(),
            a <= n,
            b <= n,
            if stop {
                (a as int, b as int) == port_scan(string@, 0, 0, 0)
            } else {
                port_scan(string@, n as int, a as int, b as int) == port_scan(string@, 0, 0, 0)
            },
        decreases 2 * (len - n) + (if stop { 0int } else { 1int }),
    {
        let c = string.get_char(n);
        let cu = c as u32;
        if 48 <= cu && cu <= 57 {
            b = b + 1;
            n = n + 1;
        } else if c == ':' {
            a = n + 1;
            n = n + 1;
        } else {
            stop = true;
        }
    }
    string.substring_ascii(a, b + 1)
}

/// Get the host out of an address string: everything up to and including
/// the first colon or slash.
pub fn parse_host<'a>(string: &'a str) -> (r: &'a str)
    requires
        string.is_ascii(),
        host_scan(string@, 0) < string@.len(),
    ensures
        r@ == string@.subrange(0, host_scan(string@, 0) + 1),
{
    let len = string.unicode_len();
    let mut n: usize = 0;
    let mut stop = false;
    while n < len && !stop
        invariant
            string.is_ascii(),
            n <= len == string@.len(),
            if stop {
                n as int == host_scan(string@, 0)
            } else {
                host_scan(string@, n as int) == host_scan(string@, 0)
            },
        decreases 2 * (len - n) + (if stop { 0int } else { 1int }),
    {
        let c = string.get_char(n);
        if c == ':' || c == '/' {
            stop = true;
        } else {
            n = n + 1;
        }
    }
    string.substring_ascii(0, n + 1)
}

/// Value of a digit string, most significant digit first.
pub open spec fn dec_val(s: Seq<char>) -> int
    decreases s.len(),
{
    if s.len() == 0 {
        0
    } else {
        dec_val(s.drop_last()) * 10 + (s.last() as u32 - 48)
    }
}

pub open spec fn is_digits(s: Seq<char>) -> bool {
    s.len() > 0 && forall|i: int| 0 <= i < s.len() ==> 48 <= #[trigger] (s[i] as u32) <= 57
}

/// What a decimal reader with a cap returns: the value of the digits
/// (after an optional leading plus sign) when they are well formed and in
/// range, and zero on any malformed or out-of-range input.
pub open spec fn spec_dec_or_zero(s: Seq<char>, cap: int) -> int {
    let d = if s.len() > 0 && s[0] == '+' {
        s.skip(1)
    } else {
        s
    };
    if is_digits(d) && dec_val(d) <= cap {
        dec_val(d)
    } else {
        0
    }
}

/// Read a capped decimal number, returning zero on any malformed or
/// out-of-range input.
pub fn parse_dec_capped(s: &str, cap: u16) -> (r: u16)
    ensures
        r as int == spec_dec_or_zero(s@, cap as int),
        r <= cap,
{
    let len = s.unicode_len();
    let mut start: usize = 0;
    if len > 0 && s.get_char(0) == '+' {
        start = 1;
    }
    if start >= len {
        return 0;
    }
    let ghost d = if s@.len() > 0 && s@[0] == '+' {
        s@.skip(1)
    } else {
        s@
    };
    proof {
        assert(d =~= s@.subrange(start as int, len as int));
    }
    let mut n: usize = start;
    let mut acc: u32 = 0;
    let mut over = false;
    while n < len
        invariant
            start <= n <= len == s@.len(),
            start <= 1,
            d == (if s@.len() > 0 && s@[0] == '+' {
                s@.skip(1)
            } else {
                s@
            }),
            d =~= s@.subrange(start as int, len as int),
            cap <= 0xFFFF,
            forall|j: int| start <= j < n ==> 48 <= #[trigger] (s@[j] as u32) <= 57,
            !over ==> acc == dec_val(s@.subrange(start as int, n as int)) && acc <= cap,
            over ==> dec_val(s@.subrange(start as int, n as int)) > cap,
        decreases len - n,
    {
        let c = s.get_char(n);
        let cu = c as u32;
        if cu < 48 || cu > 57 {
            proof {
                let j = n - start;
                assert(d[j] == s@[n as int]);
                assert(!(48 <= (d[j] as u32) <= 57));
                assert(!is_digits(d));
                assert(spec_dec_or_zero(s@, cap as int) == 0);
            }
            return 0;
        }
        proof {
            assert(s@.subrange(start as int, n + 1).drop_last() =~= s@.subrange(
                start as int,
                n as int,
            ));
            assert(s@.subrange(start as int, n + 1).last() == s@[n as int]);
        }
        if !over {
            let next = acc * 10 + (cu - 48);
            if next > cap as u32 {
                over = true;
            } else {
                acc = next;
            }
        }
        n = n + 1;
    }
    if over {
        0
    } else {
        acc as u16
    }
}

/// Zero-filled tail for the octets a dotted-decimal string does not name.
pub open spec fn spec_zeros(k: int) -> Seq<u8>
    decreases k,
{
    if k <= 0 {
        Seq::<u8>::empty()
    } else {
        seq![0u8] + spec_zeros(k - 1)
    }
}

/// The first `k` dot-separated parts of `s`, each read as a capped
/// decimal octet; parts past the end of the string are zero.
pub open spec fn spec_octets(s: Seq<char>, k: int) -> Seq<u8>
    decreases k,
{
    if k <= 0 {
        Seq::<u8>::empty()
    } else {
        let dot = find_from(s, 0, '.');
        if dot == s.len() {
            seq![spec_dec_or_zero(s, 255) as u8] + spec_zeros(k - 1)
        } else {
            seq![spec_dec_or_zero(s.take(dot), 255) as u8] + spec_octets(
                s.subrange(dot + 1, s.len() as int),
                k - 1,
            )
        }
    }
}

/// The four octets a dotted-decimal string names.
pub open spec fn spec_ipv4(s: Seq<char>) -> Seq<u8> {
    spec_octets(s, 4)
}

proof fn lemma_zeros_len(k: int)
    requires
        k >= 0,
    ensures
        spec_zeros(k).len() == k,
    decreases k,
{
    if k > 0 {
        lemma_zeros_len(k - 1);
    }
}

pub proof fn lemma_octets_len(s: Seq<char>, k: int)
    requires
        k >= 0,
    ensures
        spec_octets(s, k).len() == k,
    decreases k,
{
    if k > 0 {
        let dot = find_from(s, 0, '.');
        if dot == s.len() {
            lemma_zeros_len(k - 1);
        } else {
            lemma_octets_len(s.subrange(dot + 1, s.len() as int), k - 1);
        }
    }
}

/// Append the octets of the first `k` dot-separated parts of `s`.
fn octets_into(s: &str, k: usize, out: &mut Vec<u8>)
    ensures
        final(out)@ == old(out)@ + spec_octets(s@, k as int),
    decreases k,
{
    if k == 0 {
        assert(out@ =~= old(out)@ + spec_octets(s@, 0));
        return ;
    }
    let len = s.unicode_len();
    let mut n: usize = 0;
    let mut found = false;
    while n < len && !found
        invariant
            n <= len == s@.len(),
            if found {
                n as int == find_from(s@, 0, '.') && n < len
            } else {
                find_from(s@, n as int, '.') == find_from(s@, 0, '.')
            },
        decreases 2 * (len - n) + (if found { 0int } else { 1int }),
    {
        if s.get_char(n) == '.' {
            found = true;
        } else {
            n = n + 1;
        }
    }
    if !found {
        let v = parse_dec_capped(s, 255);
        out.push(v as u8);
        let mut j: usize = k - 1;
        while j > 0
            invariant
                j <= k - 1,
                out@ =~= old(out)@ + seq![(spec_dec_or_zero(s@, 255) as u8)] + spec_zeros(
                    k - 1 - j,
                ),
            decreases j,
        {
            out.push(0);
            proof {
                lemma_zeros_snoc(k - 1 - j);
            }
            j = j - 1;
        }
        assert(out@ =~= old(out)@ + spec_octets(s@, k as int));
    } else {
        let part = s.substring_char(0, n);
        let v = parse_dec_capped(part, 255);
        out.push(v as u8);
        let rest = s.substring_char(n + 1, len);
        proof {
            assert(part@ =~= s@.take(n as int));
            assert(rest@ =~= s@.subrange(n + 1, s@.len() as int));
        }
        octets_into(rest, k - 1, out);
        assert(out@ =~= old(out)@ + spec_octets(s@, k as int));
    }
}

proof fn lemma_zeros_snoc(k: int)
    requires
        k >= 0,
    ensures
        spec_zeros(k) + seq![0u8] =~= spec_zeros(k + 1),
    decreases k,
{
    if k > 0 {
        lemma_zeros_snoc(k - 1);
        assert(spec_zeros(k) + seq![0u8] =~= seq![0u8] + (spec_zeros(k - 1) + seq![0u8]));
    }
}

impl Ipv4Addr {
    /// Read a dotted-decimal address; missing or malformed octets read as
    /// zero, parts past the fourth are ignored.
    pub fn from_string(s: &str) -> (r: Ipv4Addr)
        ensures
            r@ == spec_ipv4(s@),
    {
        let mut out: Vec<u8> = Vec::new();
        octets_into(s, 4, &mut out);
        proof {
            lemma_octets_len(s@, 4);
        }
        let r = Ipv4Addr { bytes: [out[0], out[1], out[2], out[3]] };
        assert(r@ =~= out@);
        r
    }
}

/// The peer address embedded in an IP resource's own path string: the
/// dotted-decimal octets between the scheme's colon and the next colon or
/// slash.
pub open spec fn spec_peer_addr_ref(s: Seq<char>) -> Seq<char> {
    let c = find_from(s, 0, ':');
    if c == s.len() {
        Seq::<char>::empty()
    } else {
        s.subrange(c + 1, host_scan(s, c + 1))
    }
}

/// Recover the peer address from an IP resource's path string, such as
/// the address between `ip:` and `/6`.
pub fn peer_addr_from_path(path: &str) -> (r: Ipv4Addr)
    ensures
        r@ == spec_ipv4(spec_peer_addr_ref(path@)),
{
    let len = path.unicode_len();
    let mut n: usize = 0;
    let mut found = false;
    while n < len && !found
        invariant
            n <= len == path@.len(),
            if found {
                n as int == find_from(path@, 0, ':') && n < len
            } else {
                find_from(path@, n as int, ':') == find_from(path@, 0, ':')
            },
        decreases 2 * (len - n) + (if found { 0int } else { 1int }),
    {
        if path.get_char(n) == ':' {
            found = true;
        } else {
            n = n + 1;
        }
    }
    if !found {
        let empty = path.substring_char(0, 0);
        proof {
            assert(empty@ =~= spec_peer_addr_ref(path@));
        }
        return Ipv4Addr::from_string(empty);
    }
    let start = n + 1;
    let mut e: usize = start;
    let mut stop = false;
    while e < len && !stop
        invariant
            start <= e <= len == path@.len(),
            if stop {
                e as int == host_scan(path@, start as int)
            } else {
                host_scan(path@, e as int) == host_scan(path@, start as int)
            },
        decreases 2 * (len - e) + (if stop { 0int } else { 1int }),
    {
        let c = path.get_char(e);
        if c == ':' || c == '/' {
            stop = true;
        } else {
            e = e + 1;
        }
    }
    let reference = path.substring_char(start, e);
    proof {
        assert(reference@ =~= spec_peer_addr_ref(path@));
    }
    Ipv4Addr::from_string(reference)
}


/// Position of the first occurrence of `c` at or after `from`, or the
/// length of the string.
pub fn find_char(s: &str, from: usize, c: char) -> (r: usize)
    requires
        from as int <= s@.len(),
    ensures
        r as int == find_from(s@, from as int, c),
        from <= r,
        r as int <= s@.len(),
{
    let len = s.unicode_len();
    let mut n: usize = from;
    let mut found = false;
    while n < len && !found
        invariant
            from <= n <= len == s@.len(),
            if found {
                n as int == find_from(s@, from as int, c) && n < len
            } else {
                find_from(s@, n as int, c) == find_from(s@, from as int, c)
            },
        decreases 2 * (len - n) + (if found { 0int } else { 1int }),
    {
        if s.get_char(n) == c {
            found = true;
        } else {
            n = n + 1;
        }
    }
    n
}

} // verus!
