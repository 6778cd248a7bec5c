//! Reading the host's table of listening TCP sockets: one socket per line,
//! the local address in the fourth column, the port after its last colon.

use crate::grammar::{parse_socket_port, socket_port};
use crate::scan::{first_at, lemma_first_at_is, pieces, split, split_bytes};
use vstd::prelude::*;
use vstd::slice::{slice_subrange, slice_to_vec};
use vstd::utf8::{decode_utf8, valid_utf8};

verus! {

/// Why a table of listening sockets could not be read.
#[derive(Clone, Copy, Debug, PartialEq, Eq, Structural)]
pub enum InventoryError {
    /// A line is not UTF-8 text.
    InvalidText,
    /// A line has fewer than four columns.
    MissingColumn,
    /// The fourth column of a line is no socket address.
    BadAddress,
}

/// Whether `c` is white space: the Unicode characters with the property
/// `White_Space`.
pub open spec fn is_space(c: char) -> bool {
    let u = c as u32;
    ||| 9 <= u <= 13
    ||| u == 0x20
    ||| u == 0x85
    ||| u == 0xA0
    ||| u == 0x1680
    ||| 0x2000 <= u <= 0x200A
    ||| u == 0x2028
    ||| u == 0x2029
    ||| u == 0x202F
    ||| u == 0x205F
    ||| u == 0x3000
}

/// Length of the longest prefix of `s` whose characters are all white space
/// (`space` true) or all not (`space` false).
pub open spec fn run(s: Seq<char>, space: bool) -> int
    decreases s.len(),
{
    if s.len() == 0 || is_space(s[0]) != space {
        0
    } else {
        1 + run(s.drop_first(), space)
    }
}

/// The `n`-th column of a line, counting from zero: columns are the maximal
/// runs of characters that are not white space. `None` where the line has no
/// such column.
pub open spec fn column(s: Seq<char>, n: nat) -> Option<Seq<char>>
    decreases n,
{
    let rest = s.skip(run(s, true));
    let width = run(rest, false);
    if width == 0 {
        None
    } else if n == 0 {
        Some(rest.take(width))
    } else {
        column(rest.skip(width), (n - 1) as nat)
    }
}

/// The text of the unspecified IPv4 address.
pub open spec fn unspecified() -> Seq<char> {
    seq!['0', '.', '0', '.', '0', '.', '0']
}

/// `s` with every `*` replaced by the unspecified IPv4 address.
pub open spec fn normalise(s: Seq<char>) -> Seq<char>
    decreases s.len(),
{
    if s.len() == 0 {
        s
    } else if s.last() == '*' {
        normalise(s.drop_last()) + unspecified()
    } else {
        normalise(s.drop_last()).push(s.last())
    }
}

/// The port a line of the table reports, or the first reason it reports
/// none.
pub open spec fn line_port(line: Seq<u8>) -> Result<u16, InventoryError> {
    if !valid_utf8(line) {
        Err(InventoryError::InvalidText)
    } else {
        match column(decode_utf8(line), 3) {
            None => Err(InventoryError::MissingColumn),
            Some(text) => match socket_port(normalise(text)) {
                None => Err(InventoryError::BadAddress),
                Some(port) => Ok(port),
            },
        }
    }
}

/// The lines of a table: its pieces between line feeds, without the empty
/// piece after a final line feed. A carriage return before a line feed stays
/// in the line, where it counts as white space.
pub open spec fn lines(table: Seq<u8>) -> Seq<Seq<u8>> {
    let parts = split(table, 10u8);
    if parts.last().len() == 0 {
        parts.drop_last()
    } else {
        parts
    }
}

/// For each line, whether it fails to report a port.
pub open spec fn failures(rows: Seq<Seq<u8>>) -> Seq<bool> {
    Seq::new(rows.len(), |i: int| line_port(rows[i]) is Err)
}

/// What a whole table reports: the port of every line, in line order, or the
/// error of the first line that reports none.
pub open spec fn inventory(table: Seq<u8>) -> Result<Seq<u16>, InventoryError> {
    let rows = lines(table);
    let bad = first_at(failures(rows), true);
    if 0 <= bad < rows.len() {
        Err(line_port(rows[bad])->Err_0)
    } else {
        Ok(Seq::new(rows.len(), |i: int| line_port(rows[i])->Ok_0))
    }
}

/// The mathematical form of a reading's outcome.
pub open spec fn reading_view(r: Result<Vec<u16>, InventoryError>) -> Result<
    Seq<u16>,
    InventoryError,
> {
    match r {
        Ok(ports) => Ok(ports@),
        Err(e) => Err(e),
    }
}

/// A length is `run` as soon as every character before it is of the kind and
/// the character at it, if any, is not.
pub proof fn lemma_run_is(s: Seq<char>, space: bool, n: int)
    requires
        0 <= n <= s.len(),
        forall|k: int| 0 <= k < n ==> is_space(#[trigger] s[k]) == space,
        n < s.len() ==> is_space(s[n]) != space,
    ensures
        run(s, space) == n,
    decreases s.len(),
{
    if n > 0 {
        assert(is_space(s[0]) == space);
        let rest = s.drop_first();
        assert forall|k: int| 0 <= k < n - 1 implies is_space(#[trigger] rest[k]) == space by {
            assert(rest[k] == s[k + 1]);
        }
        lemma_run_is(rest, space, n - 1);
    }
}

/// The text of a line, by `std::str::from_utf8`: some text exactly when the
/// bytes are valid UTF-8, and then the characters they encode.
#[verifier::external_body]
fn as_text(line: &[u8]) -> (r: Option<&str>)
    ensures
        r is Some <==> valid_utf8(line@),
        r matches Some(s) ==> s@ == decode_utf8(line@),
{
    std::str::from_utf8(line).ok()
}

/// Whether `c` is white space.
pub fn check_space(c: char) -> (b: bool)
    ensures
        b == is_space(c),
{
    let u = c as u32;
    (9 <= u && u <= 13) || u == 0x20 || u == 0x85 || u == 0xA0 || u == 0x1680 || (0x2000 <= u && u
        <= 0x200A) || u == 0x2028 || u == 0x2029 || u == 0x202F || u == 0x205F || u == 0x3000
}

/// The characters of `s`.
pub fn chars_of(s: &str) -> (v: Vec<char>)
    ensures
        v@ == s@,
{
    let mut v: Vec<char> = Vec::new();
    for c in it: s.chars()
        invariant
            v@ == it.seq().take(it.index() as int),
            it.seq() == s@,
    {
        v.push(c);
    }
    v
}

/// Length of the run of white space (`space` true) or of other characters
/// (`space` false) that begins at `from`.
fn run_length(s: &[char], from: usize, space: bool) -> (n: usize)
    requires
        from <= s@.len(),
    ensures
        n == run(s@.skip(from as int), space),
        from + n <= s@.len(),
{
    let mut at = from;
    while at < s.len() && check_space(s[at]) == space
        invariant
            from <= at <= s@.len(),
            forall|k: int| from <= k < at ==> is_space(#[trigger] s@[k]) == space,
        decreases s@.len() - at,
    {
        at += 1;
    }
    proof {
        let rest = s@.skip(from as int);
        assert forall|k: int| 0 <= k < at - from implies is_space(#[trigger] rest[k]) == space by {
            assert(rest[k] == s@[from + k]);
        }
        lemma_run_is(rest, space, at - from);
    }
    at - from
}

/// The `n`-th column of a line, counting from zero.
pub fn find_column(s: &[char], n: usize) -> (r: Option<Vec<char>>)
    ensures
        r is Some <==> column(s@, n as nat) is Some,
        r matches Some(text) ==> column(s@, n as nat) == Some(text@),
{
    let mut from: usize = 0;
    let mut left = n;
    let len = s.len();
    assert(s@.skip(0) =~= s@);
    loop
        invariant
            from <= s@.len(),
            s@.len() == len,
            column(s@, n as nat) == column(s@.skip(from as int), left as nat),
        decreases left,
    {
        let ghost here = s@.skip(from as int);
        let gap = run_length(s, from, true);
        let start = from + gap;
        let width = run_length(s, start, false);
        assert(here.skip(gap as int) =~= s@.skip(start as int));
        if width == 0 {
            return None;
        }
        if left == 0 {
            let text = slice_to_vec(slice_subrange(s, start, start + width));
            assert(text@ =~= s@.skip(start as int).take(width as int));
            return Some(text);
        }
        assert(s@.skip(start as int).skip(width as int) =~= s@.skip(start + width));
        from = start + width;
        left -= 1;
    }
}

/// `s` with every `*` replaced by the unspecified IPv4 address.
pub fn replace_wildcard(s: &[char]) -> (r: Vec<char>)
    ensures
        r@ == normalise(s@),
{
    let mut r: Vec<char> = Vec::new();
    let mut i: usize = 0;
    assert(s@.take(0) =~= Seq::<char>::empty());
    while i < s.len()
        invariant
            i <= s@.len(),
            r@ == normalise(s@.take(i as int)),
        decreases s@.len() - i,
    {
        let ghost before = r@;
        assert(s@.take(i + 1).drop_last() =~= s@.take(i as int));
        assert(s@.take(i + 1).last() == s@[i as int]);
        if s[i] == '*' {
            r.push('0');
            r.push('.');
            r.push('0');
            r.push('.');
            r.push('0');
            r.push('.');
            r.push('0');
            assert(r@ =~= before + unspecified());
        } else {
            r.push(s[i]);
        }
        i += 1;
    }
    assert(s@.take(i as int) =~= s@);
    r
}

/// The port one line of the table reports.
pub fn read_line(line: &[u8]) -> (r: Result<u16, InventoryError>)
    ensures
        r == line_port(line@),
{
    let text = match as_text(line) {
        Some(text) => text,
        None => {
            return Err(InventoryError::InvalidText);
        },
    };
    let chars = chars_of(text);
    let address = match find_column(chars.as_slice(), 3) {
        Some(address) => address,
        None => {
            return Err(InventoryError::MissingColumn);
        },
    };
    let address = replace_wildcard(address.as_slice());
    match parse_socket_port(address.as_slice()) {
        Some(port) => Ok(port),
        None => Err(InventoryError::BadAddress),
    }
}

/// The ports that listening TCP sockets hold, read from the table the port
/// inventory tool prints: one port per line, in line order. The first line
/// that is not text, lacks the address column or holds no socket address
/// there fails the whole reading.
pub fn used_ports(table: &[u8]) -> (r: Result<Vec<u16>, InventoryError>)
    ensures
        reading_view(r) == inventory(table@),
{
    let mut rows = split_bytes(table, 10u8);
    proof {
        crate::scan::lemma_split_pieces(table@, 10u8);
    }
    let ghost parts = pieces(rows@);
    if rows[rows.len() - 1].len() == 0 {
        rows.pop();
        assert(pieces(rows@) =~= parts.drop_last());
    }
    assert(pieces(rows@) == lines(table@));
    let mut ports: Vec<u16> = Vec::new();
    let mut i: usize = 0;
    while i < rows.len()
        invariant
            i <= rows.len(),
            pieces(rows@) == lines(table@),
            ports.len() == i,
            forall|k: int| 0 <= k < i ==> line_port(#[trigger] lines(table@)[k]) == Ok::<
                u16,
                InventoryError,
            >(ports[k]),
        decreases rows.len() - i,
    {
        assert(pieces(rows@)[i as int] == rows@[i as int]@);
        match read_line(rows[i].as_slice()) {
            Ok(port) => {
                ports.push(port);
            },
            Err(e) => {
                proof {
                    lemma_first_at_is(failures(lines(table@)), true, i as int);
                }
                return Err(e);
            },
        }
        i += 1;
    }
    proof {
        let rows_spec = lines(table@);
        lemma_first_at_is(failures(rows_spec), true, rows_spec.len() as int);
        assert(ports@ =~= Seq::new(rows_spec.len(), |i: int| line_port(rows_spec[i])->Ok_0));
    }
    Ok(ports)
}

} // verus!
