//! The grammar of a socket address as the port inventory prints it: an IPv4
//! dotted quad or a bracketed IPv6 address, a colon, and a decimal port.

use crate::scan::{find_char, first_at, lemma_first_at, pieces, split, split_chars};
use vstd::prelude::*;
use vstd::slice::slice_subrange;

verus! {

/// Whether `c` is one of `0` to `9`.
pub open spec fn is_digit(c: char) -> bool {
    48 <= c as u32 <= 57
}

/// Whether `c` is a hexadecimal digit of either case.
pub open spec fn is_hex(c: char) -> bool {
    is_digit(c) || 97 <= c as u32 <= 102 || 65 <= c as u32 <= 70
}

/// Whether `s` holds decimal digits only.
pub open spec fn all_digits(s: Seq<char>) -> bool {
    forall|i: int| 0 <= i < s.len() ==> is_digit(#[trigger] s[i])
}

/// Whether `s` holds hexadecimal digits only.
pub open spec fn all_hex(s: Seq<char>) -> bool {
    forall|i: int| 0 <= i < s.len() ==> is_hex(#[trigger] s[i])
}

/// The value of a string of decimal digits.
pub open spec fn number(s: Seq<char>) -> nat
    decreases s.len(),
{
    if s.len() == 0 {
        0
    } else {
        number(s.drop_last()) * 10 + (s.last() as u32 - 48) as nat
    }
}

/// A numeral: one or more decimal digits, leading zeros allowed, whose value
/// does not exceed `max`.
pub open spec fn is_numeral(s: Seq<char>, max: nat) -> bool {
    s.len() > 0 && all_digits(s) && number(s) <= max
}

/// One octet of a dotted quad: up to three digits without a leading zero,
/// at most 255.
pub open spec fn is_octet(s: Seq<char>) -> bool {
    &&& 1 <= s.len() <= 3
    &&& all_digits(s)
    &&& (s.len() > 1 ==> s[0] != '0')
    &&& number(s) <= 255
}

/// An IPv4 address: exactly four octets separated by dots.
pub open spec fn is_quad(s: Seq<char>) -> bool {
    let parts = split(s, '.');
    parts.len() == 4 && forall|i: int| 0 <= i < 4 ==> is_octet(#[trigger] parts[i])
}

/// One group of an IPv6 address: one to four hexadecimal digits.
pub open spec fn is_group(s: Seq<char>) -> bool {
    1 <= s.len() <= 4 && all_hex(s)
}

/// How many sixteen-bit groups a colon-separated list stands for: none for
/// the empty list, one for each hexadecimal group, and two for a dotted quad,
/// which may stand in the last place only and only where `quad_allowed`.
/// `None` for a list that is malformed or longer than eight pieces.
pub open spec fn group_count(s: Seq<char>, quad_allowed: bool) -> Option<nat> {
    let parts = split(s, ':');
    if s.len() == 0 {
        Some(0)
    } else if parts.len() > 8 || !(forall|i: int|
        0 <= i < parts.len() - 1 ==> is_group(#[trigger] parts[i])) {
        None
    } else if is_group(parts.last()) {
        Some(parts.len())
    } else if quad_allowed && is_quad(parts.last()) {
        Some(parts.len() + 1)
    } else {
        None
    }
}

/// Whether two colons stand at index `k` of `s` and the index after it.
pub open spec fn colons_at(s: Seq<char>, k: int) -> bool {
    s[k] == ':' && s[k + 1] == ':'
}

/// Index of the first `::` in `s`; the length of `s` where there is none.
pub open spec fn double_colon(s: Seq<char>) -> int
    decreases s.len(),
{
    if s.len() < 2 {
        s.len() as int
    } else if s[0] == ':' && s[1] == ':' {
        0
    } else {
        1 + double_colon(s.drop_first())
    }
}

/// An IPv6 address: eight groups, or fewer with one `::` standing for the
/// groups left out, of which there is at least one. A dotted quad may take
/// the place of the last two groups, but not before the `::`.
pub open spec fn is_v6(s: Seq<char>) -> bool {
    let i = double_colon(s);
    if 0 <= i < s.len() {
        match (group_count(s.take(i), false), group_count(s.skip(i + 2), true)) {
            (Some(head), Some(tail)) => head + tail <= 7,
            _ => false,
        }
    } else {
        group_count(s, true) == Some(8nat)
    }
}

/// An IPv6 address, optionally followed by `%` and a numeric scope that fits
/// in thirty-two bits.
pub open spec fn is_scoped_v6(s: Seq<char>) -> bool {
    let i = first_at(s, '%');
    if 0 <= i < s.len() {
        is_v6(s.take(i)) && is_numeral(s.skip(i + 1), 4294967295)
    } else {
        is_v6(s)
    }
}

/// The address part of a socket address: a dotted quad, or a scoped IPv6
/// address between square brackets.
pub open spec fn is_host(s: Seq<char>) -> bool {
    is_quad(s) || (s.len() >= 2 && s[0] == '[' && s.last() == ']' && is_scoped_v6(
        s.subrange(1, s.len() - 1),
    ))
}

/// Index of the last occurrence of `sep` in `s`; -1 where it does not occur.
pub open spec fn last_at(s: Seq<char>, sep: char) -> int
    decreases s.len(),
{
    if s.len() == 0 {
        -1
    } else if s.last() == sep {
        s.len() - 1
    } else {
        last_at(s.drop_last(), sep)
    }
}

/// The port of a socket address: the numeral after the last colon, which has
/// to fit in sixteen bits, where what stands before that colon is an
/// address. `None` for any other text.
pub open spec fn socket_port(s: Seq<char>) -> Option<u16> {
    let i = last_at(s, ':');
    if 0 <= i < s.len() && is_host(s.take(i)) && is_numeral(s.skip(i + 1), 65535) {
        Some(number(s.skip(i + 1)) as u16)
    } else {
        None
    }
}

/// The value of a digit string does not shrink as digits are appended.
pub proof fn lemma_number_grows(s: Seq<char>, i: int)
    requires
        all_digits(s),
        0 <= i <= s.len(),
    ensures
        number(s.take(i)) <= number(s),
    decreases s.len() - i,
{
    if i < s.len() {
        lemma_number_grows(s, i + 1);
        assert(s.take(i + 1).drop_last() =~= s.take(i));
        assert(is_digit(s[i]));
        assert(s.take(i + 1).last() == s[i]);
    } else {
        assert(s.take(i) =~= s);
    }
}

/// `last_at` is the greatest index that holds the separator.
pub proof fn lemma_last_at_is(s: Seq<char>, sep: char, n: int)
    requires
        -1 <= n < s.len(),
        forall|k: int| n < k < s.len() ==> s[k] != sep,
        n >= 0 ==> s[n] == sep,
    ensures
        last_at(s, sep) == n,
    decreases s.len(),
{
    if s.len() > 0 && s.last() != sep {
        lemma_last_at_is(s.drop_last(), sep, n);
    }
}

/// `double_colon` is the least index at which two colons begin.
pub proof fn lemma_double_colon_is(s: Seq<char>, n: int)
    requires
        0 <= n <= s.len(),
        forall|k: int| 0 <= k < n && k + 1 < s.len() ==> !colons_at(s, k),
        n < s.len() ==> n + 1 < s.len() && colons_at(s, n),
        n == s.len() || n + 1 < s.len(),
    ensures
        double_colon(s) == n,
    decreases s.len(),
{
    if s.len() >= 2 && !(s[0] == ':' && s[1] == ':') {
        let rest = s.drop_first();
        assert forall|k: int| 0 <= k < n - 1 && k + 1 < rest.len() implies !colons_at(rest, k) by {
            assert(rest[k] == s[k + 1]);
            assert(rest[k + 1] == s[k + 2]);
            assert(!colons_at(s, k + 1));
        }
        lemma_double_colon_is(rest, n - 1);
    } else if s.len() >= 2 {
        if n > 0 {
            assert(!colons_at(s, 0));
        }
    }
}

/// Whether `s` holds decimal digits only.
pub fn check_digits(s: &[char]) -> (b: bool)
    ensures
        b == all_digits(s@),
{
    let mut i: usize = 0;
    while i < s.len()
        invariant
            i <= s@.len(),
            forall|k: int| 0 <= k < i ==> is_digit(#[trigger] s@[k]),
        decreases s@.len() - i,
    {
        let c = s[i] as u32;
        if c < 48 || c > 57 {
            return false;
        }
        i += 1;
    }
    true
}

/// Whether `s` is a group of an IPv6 address.
pub fn check_group(s: &[char]) -> (b: bool)
    ensures
        b == is_group(s@),
{
    if s.len() < 1 || s.len() > 4 {
        return false;
    }
    let mut i: usize = 0;
    while i < s.len()
        invariant
            i <= s@.len(),
            forall|k: int| 0 <= k < i ==> is_hex(#[trigger] s@[k]),
        decreases s@.len() - i,
    {
        let c = s[i] as u32;
        let hex = (48 <= c && c <= 57) || (97 <= c && c <= 102) || (65 <= c && c <= 70);
        if !hex {
            return false;
        }
        i += 1;
    }
    true
}

/// The value of the numeral `s`, where it is one and does not exceed `max`.
pub fn parse_numeral(s: &[char], max: u32) -> (r: Option<u32>)
    ensures
        r is Some <==> is_numeral(s@, max as nat),
        r matches Some(v) ==> v == number(s@),
{
    if s.len() == 0 || !check_digits(s) {
        return None;
    }
    let mut acc: u32 = 0;
    let mut i: usize = 0;
    assert(s@.take(0) =~= Seq::<char>::empty());
    while i < s.len()
        invariant
            i <= s@.len(),
            all_digits(s@),
            acc == number(s@.take(i as int)),
            acc <= max,
        decreases s@.len() - i,
    {
        let d: u32 = s[i] as u32 - 48;
        proof {
            assert(is_digit(s@[i as int]));
            assert(s@.take(i + 1).drop_last() =~= s@.take(i as int));
            assert(s@.take(i + 1).last() == s@[i as int]);
            lemma_number_grows(s@, i + 1);
        }
        if d > max || acc > (max - d) / 10 {
            return None;
        }
        acc = acc * 10 + d;
        i += 1;
    }
    assert(s@.take(i as int) =~= s@);
    Some(acc)
}

/// Whether `s` is one octet of a dotted quad.
pub fn check_octet(s: &[char]) -> (b: bool)
    ensures
        b == is_octet(s@),
{
    if s.len() < 1 || s.len() > 3 {
        return false;
    }
    if s.len() > 1 && s[0] == '0' {
        return false;
    }
    parse_numeral(s, 255).is_some()
}

/// Whether `s` is an IPv4 address.
pub fn check_quad(s: &[char]) -> (b: bool)
    ensures
        b == is_quad(s@),
{
    let parts = split_chars(s, '.');
    if parts.len() != 4 {
        return false;
    }
    let mut i: usize = 0;
    while i < 4
        invariant
            i <= 4,
            parts.len() == 4,
            pieces(parts@) == split(s@, '.'),
            forall|k: int| 0 <= k < i ==> is_octet(#[trigger] split(s@, '.')[k]),
        decreases 4 - i,
    {
        assert(pieces(parts@)[i as int] == parts@[i as int]@);
        if !check_octet(parts[i].as_slice()) {
            return false;
        }
        i += 1;
    }
    true
}

/// The number of groups the colon-separated list `s` stands for.
pub fn count_groups(s: &[char], quad_allowed: bool) -> (r: Option<usize>)
    ensures
        r is Some <==> group_count(s@, quad_allowed) is Some,
        r matches Some(n) ==> group_count(s@, quad_allowed) == Some(n as nat),
{
    if s.len() == 0 {
        return Some(0);
    }
    let parts = split_chars(s, ':');
    proof {
        crate::scan::lemma_split_pieces(s@, ':');
    }
    if parts.len() > 8 {
        return None;
    }
    let n = parts.len();
    let mut i: usize = 0;
    while i + 1 < n
        invariant
            i + 1 <= n,
            1 <= n <= 8,
            n == parts.len(),
            pieces(parts@) == split(s@, ':'),
            forall|k: int| 0 <= k < i ==> is_group(#[trigger] split(s@, ':')[k]),
        decreases n - i,
    {
        assert(pieces(parts@)[i as int] == parts@[i as int]@);
        if !check_group(parts[i].as_slice()) {
            assert(!is_group(split(s@, ':')[i as int]));
            return None;
        }
        i += 1;
    }
    assert(pieces(parts@)[n - 1] == parts@[n - 1]@);
    let last = parts[n - 1].as_slice();
    if check_group(last) {
        Some(n)
    } else if quad_allowed && check_quad(last) {
        Some(n + 1)
    } else {
        None
    }
}

/// Index of the first `::` in `s`; the length of `s` where there is none.
pub fn find_double_colon(s: &[char]) -> (at: usize)
    ensures
        at == double_colon(s@),
        at <= s@.len(),
        at < s@.len() ==> at + 2 <= s@.len(),
{
    if s.len() < 2 {
        return s.len();
    }
    let mut at: usize = 0;
    while at + 1 < s.len()
        invariant
            at + 1 <= s@.len(),
            2 <= s@.len() <= usize::MAX,
            forall|k: int| 0 <= k < at ==> !colons_at(s@, k),
        decreases s@.len() - at,
    {
        if s[at] == ':' && s[at + 1] == ':' {
            proof {
                lemma_double_colon_is(s@, at as int);
            }
            return at;
        }
        at += 1;
    }
    proof {
        lemma_double_colon_is(s@, s@.len() as int);
    }
    s.len()
}

/// Whether `s` is an IPv6 address.
pub fn check_v6(s: &[char]) -> (b: bool)
    ensures
        b == is_v6(s@),
{
    let at = find_double_colon(s);
    if at < s.len() {
        let head = count_groups(slice_subrange(s, 0, at), false);
        let tail = count_groups(slice_subrange(s, at + 2, s.len()), true);
        assert(s@.subrange(0, at as int) =~= s@.take(at as int));
        assert(s@.subrange(at + 2, s@.len() as int) =~= s@.skip(at + 2));
        match (head, tail) {
            (Some(h), Some(t)) => h <= 7 && t <= 7 - h,
            _ => false,
        }
    } else {
        match count_groups(s, true) {
            Some(n) => n == 8,
            None => false,
        }
    }
}

/// Whether `s` is an IPv6 address with an optional numeric scope.
pub fn check_scoped_v6(s: &[char]) -> (b: bool)
    ensures
        b == is_scoped_v6(s@),
{
    let at = find_char(s, 0, '%');
    assert(s@.skip(0) =~= s@);
    if at < s.len() {
        assert(s@.subrange(0, at as int) =~= s@.take(at as int));
        assert(s@.subrange(at + 1, s@.len() as int) =~= s@.skip(at + 1));
        check_v6(slice_subrange(s, 0, at)) && parse_numeral(
            slice_subrange(s, at + 1, s.len()),
            4294967295,
        ).is_some()
    } else {
        check_v6(s)
    }
}

/// Whether `s` is the address part of a socket address.
pub fn check_host(s: &[char]) -> (b: bool)
    ensures
        b == is_host(s@),
{
    if check_quad(s) {
        return true;
    }
    if s.len() < 2 || s[0] != '[' || s[s.len() - 1] != ']' {
        return false;
    }
    check_scoped_v6(slice_subrange(s, 1, s.len() - 1))
}

/// The port of the socket address `s`, where it is one.
pub fn parse_socket_port(s: &[char]) -> (r: Option<u16>)
    ensures
        r == socket_port(s@),
{
    let mut at: usize = s.len();
    while at > 0 && s[at - 1] != ':'
        invariant
            at <= s@.len(),
            forall|k: int| at <= k < s@.len() ==> s@[k] != ':',
        decreases at,
    {
        at -= 1;
    }
    proof {
        lemma_last_at_is(s@, ':', at - 1);
    }
    if at == 0 {
        return None;
    }
    let colon = at - 1;
    assert(s@.subrange(0, colon as int) =~= s@.take(colon as int));
    assert(s@.subrange(at as int, s@.len() as int) =~= s@.skip(colon + 1));
    if !check_host(slice_subrange(s, 0, colon)) {
        return None;
    }
    match parse_numeral(slice_subrange(s, at, s.len()), 65535) {
        Some(v) => Some(v as u16),
        None => None,
    }
}

} // verus!
