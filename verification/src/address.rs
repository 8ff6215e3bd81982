//! The bind address: an IPv4 host and port held as plain numbers, a
//! verified parser for the `a.b.c.d:port` text form, and the exact text
//! rendering used by the snapshot.  A malformed address is a typed,
//! recoverable error that names the offending input.

use vstd::prelude::*;
use vstd::string::StrSliceExecFns;
use vstd::string::StringExecFns;
use crate::digits::dec_digits;
use crate::digits::digit_val;
use crate::digits::digits_val;
use crate::digits::is_digit;
use crate::digits::lemma_dec_digits_shape;
use crate::digits::lemma_dec_digits_unique;
use crate::digits::lemma_dec_digits_val;
use crate::digits::lemma_digits_val_mono;
use crate::digits::lemma_digits_val_step;
use crate::digits::u32_to_string;

verus! {

/// A network address: four IPv4 octets and a port.
#[derive(Debug, Clone, Copy, PartialEq, Eq, Structural)]
pub struct SocketAddress {
    pub oct1: u8,
    pub oct2: u8,
    pub oct3: u8,
    pub oct4: u8,
    pub port: u16,
}

/// The error a malformed address text parses to; it carries the
/// offending input.
#[derive(Debug, Clone, PartialEq, Eq)]
pub struct AddressParseError {
    pub input: String,
}

/// The first position at or after `i` that does not hold a digit.
pub open spec fn digits_end(s: Seq<char>, i: int) -> int
    decreases s.len() - i when 0 <= i <= s.len()
{
    if i < s.len() && is_digit(s[i]) {
        digits_end(s, i + 1)
    } else {
        i
    }
}

/// A well-formed decimal field of the address text: nonempty, no
/// leading zero, and a value within `bound`.
pub open spec fn group_ok(s: Seq<char>, i: int, j: int, bound: int) -> bool {
    i < j && (j == i + 1 || s[i] != '0') && digits_val(s.subrange(i, j)) <= bound
}

/// What parsing an address text yields: the text must be four decimal
/// octets separated by `.`, then `:`, then a decimal port, each field
/// without leading zeros and within its range; anything else is `None`.
pub open spec fn parse_spec(s: Seq<char>) -> Option<SocketAddress> {
    let j1 = digits_end(s, 0);
    if !(j1 < s.len() && s[j1] == '.') {
        None
    } else {
        let j2 = digits_end(s, j1 + 1);
        if !(j2 < s.len() && s[j2] == '.') {
            None
        } else {
            let j3 = digits_end(s, j2 + 1);
            if !(j3 < s.len() && s[j3] == '.') {
                None
            } else {
                let j4 = digits_end(s, j3 + 1);
                if !(j4 < s.len() && s[j4] == ':') {
                    None
                } else {
                    let j5 = digits_end(s, j4 + 1);
                    if j5 != s.len() {
                        None
                    } else if !group_ok(s, 0, j1, 255) {
                        None
                    } else if !group_ok(s, j1 + 1, j2, 255) {
                        None
                    } else if !group_ok(s, j2 + 1, j3, 255) {
                        None
                    } else if !group_ok(s, j3 + 1, j4, 255) {
                        None
                    } else if !group_ok(s, j4 + 1, j5, 65535) {
                        None
                    } else {
                        Some(
                            SocketAddress {
                                oct1: digits_val(s.subrange(0, j1)) as u8,
                                oct2: digits_val(s.subrange(j1 + 1, j2)) as u8,
                                oct3: digits_val(s.subrange(j2 + 1, j3)) as u8,
                                oct4: digits_val(s.subrange(j3 + 1, j4)) as u8,
                                port: digits_val(s.subrange(j4 + 1, j5)) as u16,
                            },
                        )
                    }
                }
            }
        }
    }
}

/// The text form of an address, `a.b.c.d:port`, every field in decimal
/// without leading zeros.
pub open spec fn addr_text(a: SocketAddress) -> Seq<char> {
    dec_digits(a.oct1 as nat) + seq!['.'] + dec_digits(a.oct2 as nat) + seq!['.'] + dec_digits(
        a.oct3 as nat,
    ) + seq!['.'] + dec_digits(a.oct4 as nat) + seq![':'] + dec_digits(a.port as nat)
}

/// A stretch of digits ended by the length or a non-digit is exactly
/// what `digits_end` finds.
proof fn lemma_digits_end(s: Seq<char>, i: int, j: int)
    requires
        0 <= i <= j <= s.len(),
        forall|k: int| i <= k < j ==> is_digit(s[k]),
        j == s.len() || !is_digit(s[j]),
    ensures
        digits_end(s, i) == j,
    decreases j - i,
{
    if i < j {
        lemma_digits_end(s, i + 1, j);
    }
}

fn is_digit_char(c: char) -> (r: bool)
    ensures
        r == is_digit(c),
{
    match c {
        '0' | '1' | '2' | '3' | '4' | '5' | '6' | '7' | '8' | '9' => true,
        _ => false,
    }
}

fn digit_value(c: char) -> (r: u32)
    requires
        is_digit(c),
    ensures
        r == digit_val(c),
        r <= 9,
{
    match c {
        '0' => 0,
        '1' => 1,
        '2' => 2,
        '3' => 3,
        '4' => 4,
        '5' => 5,
        '6' => 6,
        '7' => 7,
        '8' => 8,
        _ => 9,
    }
}

/// Scans the digit field that starts at `from`.
fn scan_digits(s: &str, from: usize, n: usize) -> (j: usize)
    requires
        from <= n,
        n == s@.len(),
    ensures
        from <= j <= n,
        j == digits_end(s@, from as int),
        forall|k: int| from <= k < j ==> is_digit(s@[k]),
{
    let mut j: usize = from;
    while j < n && is_digit_char(s.get_char(j))
        invariant
            from <= j <= n,
            n == s@.len(),
            forall|k: int| from <= k < j ==> is_digit(s@[k]),
        decreases n - j,
    {
        j = j + 1;
    }
    proof {
        lemma_digits_end(s@, from as int, j as int);
    }
    j
}

/// Reads the decimal field `[from, to)`: its value if the field is
/// well formed for `bound`, and `None` otherwise.
fn read_group(s: &str, from: usize, to: usize, bound: u32, n: usize) -> (r: Option<u32>)
    requires
        from <= to <= n,
        n == s@.len(),
        bound <= 65535,
        forall|k: int| from <= k < to ==> is_digit(s@[k]),
    ensures
        (match r {
            Some(v) => group_ok(s@, from as int, to as int, bound as int) && v == digits_val(
                s@.subrange(from as int, to as int),
            ) && v <= bound,
            None => !group_ok(s@, from as int, to as int, bound as int),
        }),
{
    if from == to {
        return None;
    }
    if to > from + 1 && s.get_char(from) == '0' {
        return None;
    }
    let mut v: u32 = 0;
    let mut k: usize = from;
    proof {
        assert(s@.subrange(from as int, from as int) =~= Seq::<char>::empty());
    }
    while k < to
        invariant
            from <= k <= to <= n,
            n == s@.len(),
            bound <= 65535,
            v <= bound,
            forall|m: int| from <= m < to ==> is_digit(s@[m]),
            v == digits_val(s@.subrange(from as int, k as int)),
        decreases to - k,
    {
        let d = digit_value(s.get_char(k));
        proof {
            lemma_digits_val_step(s@, from as int, k as int);
        }
        let v2 = v * 10 + d;
        if v2 > bound {
            proof {
                lemma_digits_val_mono(s@, from as int, k as int + 1, to as int);
            }
            return None;
        }
        v = v2;
        k = k + 1;
    }
    Some(v)
}

fn parse_failure(s: &str) -> (e: AddressParseError)
    ensures
        e.input@ == s@,
{
    AddressParseError { input: String::from_str(s) }
}

impl SocketAddress {
    /// Parses the `a.b.c.d:port` text form.  Success is owed exactly on
    /// the well-formed texts that `parse_spec` accepts; anything else
    /// comes back as an error naming the input.
    pub fn parse(s: &str) -> (r: Result<SocketAddress, AddressParseError>)
        ensures
            (match r {
                Ok(a) => parse_spec(s@) == Some(a),
                Err(e) => parse_spec(s@) is None && e.input@ == s@,
            }),
    {
        let n: usize = s.unicode_len();
        let j1 = scan_digits(s, 0, n);
        if !(j1 < n && s.get_char(j1) == '.') {
            return Err(parse_failure(s));
        }
        let j2 = scan_digits(s, j1 + 1, n);
        if !(j2 < n && s.get_char(j2) == '.') {
            return Err(parse_failure(s));
        }
        let j3 = scan_digits(s, j2 + 1, n);
        if !(j3 < n && s.get_char(j3) == '.') {
            return Err(parse_failure(s));
        }
        let j4 = scan_digits(s, j3 + 1, n);
        if !(j4 < n && s.get_char(j4) == ':') {
            return Err(parse_failure(s));
        }
        let j5 = scan_digits(s, j4 + 1, n);
        if j5 != n {
            return Err(parse_failure(s));
        }
        let o1 = match read_group(s, 0, j1, 255, n) {
            Some(v) => v,
            None => return Err(parse_failure(s)),
        };
        let o2 = match read_group(s, j1 + 1, j2, 255, n) {
            Some(v) => v,
            None => return Err(parse_failure(s)),
        };
        let o3 = match read_group(s, j2 + 1, j3, 255, n) {
            Some(v) => v,
            None => return Err(parse_failure(s)),
        };
        let o4 = match read_group(s, j3 + 1, j4, 255, n) {
            Some(v) => v,
            None => return Err(parse_failure(s)),
        };
        let p = match read_group(s, j4 + 1, j5, 65535, n) {
            Some(v) => v,
            None => return Err(parse_failure(s)),
        };
        Ok(
            SocketAddress {
                oct1: o1 as u8,
                oct2: o2 as u8,
                oct3: o3 as u8,
                oct4: o4 as u8,
                port: p as u16,
            },
        )
    }

    /// Renders the address as `a.b.c.d:port`.
    pub fn to_text(&self) -> (r: String)
        ensures
            r@ == addr_text(*self),
    {
        proof {
            reveal_strlit(".");
            reveal_strlit(":");
            assert("."@ =~= seq!['.']);
            assert(":"@ =~= seq![':']);
        }
        let mut r = u32_to_string(self.oct1 as u32);
        r.append(".");
        let t2 = u32_to_string(self.oct2 as u32);
        r.append(t2.as_str());
        r.append(".");
        let t3 = u32_to_string(self.oct3 as u32);
        r.append(t3.as_str());
        r.append(".");
        let t4 = u32_to_string(self.oct4 as u32);
        r.append(t4.as_str());
        r.append(":");
        let t5 = u32_to_string(self.port as u32);
        r.append(t5.as_str());
        r
    }
}

/// A decimal field standing at `i` in a larger text, followed by the
/// end or a separator, scans and reads back as the number it renders.
proof fn lemma_group_at(s: Seq<char>, i: int, t: Seq<char>, v: nat, bound: int)
    requires
        0 <= i,
        i + t.len() <= s.len(),
        t == dec_digits(v),
        s.subrange(i, i + t.len() as int) == t,
        v <= bound,
        i + t.len() == s.len() || !is_digit(s[i + t.len()]),
    ensures
        digits_end(s, i) == i + t.len(),
        group_ok(s, i, i + t.len() as int, bound),
        digits_val(s.subrange(i, i + t.len() as int)) == v,
{
    lemma_dec_digits_shape(v);
    lemma_dec_digits_val(v);
    assert forall|k: int| i <= k < i + t.len() implies is_digit(s[k]) by {
        assert(s[k] == s.subrange(i, i + t.len() as int)[k - i]);
    }
    lemma_digits_end(s, i, i + t.len() as int);
    assert(s[i] == s.subrange(i, i + t.len() as int)[0]);
}

/// Law: parsing is the inverse of rendering — the text an address
/// renders to parses back to that same address.
pub proof fn lemma_parse_round_trip(a: SocketAddress)
    ensures
        parse_spec(addr_text(a)) == Some(a),
{
    let t1 = dec_digits(a.oct1 as nat);
    let t2 = dec_digits(a.oct2 as nat);
    let t3 = dec_digits(a.oct3 as nat);
    let t4 = dec_digits(a.oct4 as nat);
    let t5 = dec_digits(a.port as nat);
    let n1 = t1.len() as int;
    let n2 = t2.len() as int;
    let n3 = t3.len() as int;
    let n4 = t4.len() as int;
    let n5 = t5.len() as int;
    let s = addr_text(a);
    assert(s.len() == n1 + n2 + n3 + n4 + n5 + 4);
    let i2 = n1 + 1;
    let i3 = n1 + n2 + 2;
    let i4 = n1 + n2 + n3 + 3;
    let i5 = n1 + n2 + n3 + n4 + 4;
    assert(s.subrange(0, n1) =~= t1);
    assert(s.subrange(i2, i2 + n2) =~= t2);
    assert(s.subrange(i3, i3 + n3) =~= t3);
    assert(s.subrange(i4, i4 + n4) =~= t4);
    assert(s.subrange(i5, i5 + n5) =~= t5);
    assert(s[n1] == '.');
    assert(s[i2 + n2] == '.');
    assert(s[i3 + n3] == '.');
    assert(s[i4 + n4] == ':');
    lemma_group_at(s, 0, t1, a.oct1 as nat, 255);
    lemma_group_at(s, i2, t2, a.oct2 as nat, 255);
    lemma_group_at(s, i3, t3, a.oct3 as nat, 255);
    lemma_group_at(s, i4, t4, a.oct4 as nat, 255);
    lemma_group_at(s, i5, t5, a.port as nat, 65535);
}

/// What `digits_end` finds really is a stretch of digits.
proof fn lemma_digits_end_props(s: Seq<char>, i: int)
    requires
        0 <= i <= s.len(),
    ensures
        i <= digits_end(s, i) <= s.len(),
        forall|k: int| i <= k < digits_end(s, i) ==> is_digit(s[k]),
    decreases s.len() - i,
{
    if i < s.len() && is_digit(s[i]) {
        lemma_digits_end_props(s, i + 1);
    }
}

/// A well-formed field of the address text is the decimal spelling of
/// its value.
proof fn lemma_group_text(s: Seq<char>, i: int, j: int, bound: int)
    requires
        0 <= i <= j <= s.len(),
        forall|k: int| i <= k < j ==> is_digit(s[k]),
        group_ok(s, i, j, bound),
    ensures
        0 <= digits_val(s.subrange(i, j)) <= bound,
        s.subrange(i, j) == dec_digits(digits_val(s.subrange(i, j)) as nat),
{
    let g = s.subrange(i, j);
    assert(forall|k: int| 0 <= k < g.len() ==> is_digit(#[trigger] g[k]) && g[k] == s[i + k]);
    lemma_dec_digits_unique(g);
}

/// Law: rendering is the inverse of parsing — a text that parses to an
/// address is exactly what that address renders to, so the accepted
/// texts are precisely the canonical renderings.
pub proof fn lemma_render_round_trip(s: Seq<char>, a: SocketAddress)
    requires
        parse_spec(s) == Some(a),
    ensures
        addr_text(a) == s,
{
    let j1 = digits_end(s, 0);
    let i2 = j1 + 1;
    let j2 = digits_end(s, i2);
    let i3 = j2 + 1;
    let j3 = digits_end(s, i3);
    let i4 = j3 + 1;
    let j4 = digits_end(s, i4);
    let i5 = j4 + 1;
    let j5 = digits_end(s, i5);
    lemma_digits_end_props(s, 0);
    lemma_digits_end_props(s, i2);
    lemma_digits_end_props(s, i3);
    lemma_digits_end_props(s, i4);
    lemma_digits_end_props(s, i5);
    lemma_group_text(s, 0, j1, 255);
    lemma_group_text(s, i2, j2, 255);
    lemma_group_text(s, i3, j3, 255);
    lemma_group_text(s, i4, j4, 255);
    lemma_group_text(s, i5, j5, 65535);
    assert(a.oct1 as nat == digits_val(s.subrange(0, j1)));
    assert(a.oct2 as nat == digits_val(s.subrange(i2, j2)));
    assert(a.oct3 as nat == digits_val(s.subrange(i3, j3)));
    assert(a.oct4 as nat == digits_val(s.subrange(i4, j4)));
    assert(a.port as nat == digits_val(s.subrange(i5, j5)));
    assert(addr_text(a) =~= s.subrange(0, j1) + seq![s[j1]] + s.subrange(i2, j2) + seq![s[j2]]
        + s.subrange(i3, j3) + seq![s[j3]] + s.subrange(i4, j4) + seq![s[j4]] + s.subrange(i5, j5));
    assert(addr_text(a) =~= s);
}

impl Default for SocketAddress {
    /// The default bind address, the loopback host on port 3000.
    fn default() -> (r: Self)
        ensures
            r == (SocketAddress { oct1: 127, oct2: 0, oct3: 0, oct4: 1, port: 3000 }),
    {
        SocketAddress { oct1: 127, oct2: 0, oct3: 0, oct4: 1, port: 3000 }
    }
}

} // verus!
