//! A small IPv4 address value, with a verified parser for dotted-quad text.

use vstd::prelude::*;

verus! {

/// An IPv4 address as four octets.
#[derive(Clone, Copy, PartialEq, Eq, Structural, Debug)]
pub struct Ipv4Addr {
    pub a: u8,
    pub b: u8,
    pub c: u8,
    pub d: u8,
}

impl View for Ipv4Addr {
    type V = Ipv4Addr;

    open spec fn view(&self) -> Ipv4Addr {
        *self
    }
}

/// Decimal digit.
pub open spec fn is_digit(c: char) -> bool {
    '0' <= c && c <= '9'
}

/// Numeric value of a decimal digit.
pub open spec fn digit_val(c: char) -> int {
    c as int - '0' as int
}

/// One step of scanning dotted-quad text: `done` holds the finished octets,
/// `acc` the value of the octet being read, `ndig` how many of its digits
/// have been read.
pub open spec fn ipv4_scan(s: Seq<char>, i: int, done: Seq<u8>, acc: int, ndig: int) -> Option<
    Ipv4Addr,
>
    decreases s.len() - i,
    when 0 <= i <= s.len()
{
    if i == s.len() {
        if ndig >= 1 && done.len() == 3 && 0 <= acc <= 255 {
            Some(Ipv4Addr { a: done[0], b: done[1], c: done[2], d: acc as u8 })
        } else {
            None
        }
    } else {
        let c = s[i];
        if is_digit(c) {
            let acc2 = acc * 10 + digit_val(c);
            if ndig >= 3 || acc2 > 255 {
                None
            } else {
                ipv4_scan(s, i + 1, done, acc2, ndig + 1)
            }
        } else if c == '.' {
            if ndig == 0 || done.len() >= 3 || !(0 <= acc <= 255) {
                None
            } else {
                ipv4_scan(s, i + 1, done.push(acc as u8), 0, 0)
            }
        } else {
            None
        }
    }
}

/// What dotted-quad text denotes: four octets of one to three decimal digits
/// each, separated by single dots, each at most 255.
pub open spec fn spec_parse_ipv4(s: Seq<char>) -> Option<Ipv4Addr> {
    ipv4_scan(s, 0, Seq::empty(), 0, 0)
}

/// Parse dotted-quad text, such as `127.0.0.1`.
pub fn parse_ipv4(s: &str) -> (r: Option<Ipv4Addr>)
    ensures
        r == spec_parse_ipv4(s@),
{
    let n = s.unicode_len();
    let mut i: usize = 0;
    let mut acc: u16 = 0;
    let mut ndig: u8 = 0;
    let mut done: Vec<u8> = Vec::new();
    loop
        invariant
            i <= n,
            n == s@.len(),
            acc <= 255,
            ndig <= 3,
            spec_parse_ipv4(s@) == ipv4_scan(s@, i as int, done@, acc as int, ndig as int),
        ensures
            i == n,
            acc <= 255,
            spec_parse_ipv4(s@) == ipv4_scan(s@, n as int, done@, acc as int, ndig as int),
        decreases n - i,
    {
        if i >= n {
            break;
        }
        let c = s.get_char(i);
        if '0' <= c && c <= '9' {
            let d: u16 = (c as u32 - '0' as u32) as u16;
            let acc2: u16 = acc * 10 + d;
            if ndig >= 3 || acc2 > 255 {
                return None;
            }
            acc = acc2;
            ndig = ndig + 1;
        } else if c == '.' {
            if ndig == 0 || done.len() >= 3 {
                return None;
            }
            done.push(acc as u8);
            acc = 0;
            ndig = 0;
        } else {
            return None;
        }
        i = i + 1;
    }
    if ndig >= 1 && done.len() == 3 {
        Some(Ipv4Addr { a: done[0], b: done[1], c: done[2], d: acc as u8 })
    } else {
        None
    }
}

} // verus!
