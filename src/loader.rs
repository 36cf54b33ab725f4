//! The program listing format: one `ADDR: VALUE [anything]` entry per line,
//! with a hexadecimal address followed by a colon, and a value of two hex
//! digits (one byte) or four (one big-endian word). Blank lines and lines
//! whose first word starts with `//` are skipped. Words are separated by
//! ASCII whitespace.
use vstd::prelude::*;

use crate::memory::{MEMORY_SIZE, Memory, with_word};

verus! {

pub const NEWLINE: u8 = 0x0A;

pub const SLASH: u8 = 0x2F;

pub const COLON: u8 = 0x3A;

/// Hex values are tracked up to this bound; anything larger is out of range
/// for both addresses and values.
pub const HEX_CAP: u32 = 0x10000;

/// Why a line of a listing was refused.
#[derive(Debug, PartialEq, Eq, Structural, Clone, Copy)]
pub enum LoadErrorKind {
    /// The first word is not hex digits followed by a colon.
    BadAddress,
    /// The address is not followed by a value.
    MissingValue,
    /// The value has neither two nor four characters.
    BadWidth,
    /// The value is not made of hex digits.
    BadValue,
    /// The value would be written past the end of memory.
    AddressOutOfRange,
}

/// A refused listing: the 1-based number of the first bad line, and why.
#[derive(Debug, PartialEq, Eq, Structural, Clone, Copy)]
pub struct LoadError {
    pub line: usize,
    pub kind: LoadErrorKind,
}

/// One write that a listing asks for.
#[derive(Debug, PartialEq, Eq, Structural, Clone, Copy)]
pub enum Store {
    Byte { address: u16, value: u8 },
    Word { address: u16, word: u16 },
}

/// What one line of a listing amounts to.
#[derive(Debug, PartialEq, Eq, Structural, Clone, Copy)]
pub enum LineParse {
    Skip,
    Write(Store),
    Bad(LoadErrorKind),
}

pub open spec fn is_space(b: u8) -> bool {
    b == 0x20 || b == 0x09 || b == 0x0A || b == 0x0B || b == 0x0C || b == 0x0D
}

pub open spec fn is_hex_digit(b: u8) -> bool {
    (0x30 <= b <= 0x39) || (0x41 <= b <= 0x46) || (0x61 <= b <= 0x66)
}

pub open spec fn hex_digit_value(b: u8) -> nat {
    if b <= 0x39 {
        (b - 0x30) as nat
    } else if b <= 0x46 {
        (b - 0x41 + 10) as nat
    } else {
        (b - 0x61 + 10) as nat
    }
}

pub open spec fn all_hex(s: Seq<u8>) -> bool {
    forall|i: int| 0 <= i < s.len() ==> is_hex_digit(#[trigger] s[i])
}

/// The number that a string of hex digits spells.
pub open spec fn hex_value(s: Seq<u8>) -> nat
    decreases s.len(),
{
    if s.len() == 0 {
        0
    } else {
        hex_value(s.drop_last()) * 16 + hex_digit_value(s.last())
    }
}

/// The first position at or after `i` that holds no whitespace.
pub open spec fn skip_spaces(s: Seq<u8>, i: nat) -> nat
    decreases s.len() - i,
{
    if i < s.len() && is_space(s[i as int]) {
        skip_spaces(s, i + 1)
    } else {
        i
    }
}

/// The first position at or after `i` that holds whitespace, or the end.
pub open spec fn skip_word(s: Seq<u8>, i: nat) -> nat
    decreases s.len() - i,
{
    if i < s.len() && !is_space(s[i as int]) {
        skip_word(s, i + 1)
    } else {
        i
    }
}

/// The meaning of one line: its first word is the address with its colon,
/// its second word the value; any further words are ignored.
pub open spec fn parse_line(line: Seq<u8>) -> LineParse {
    let a0 = skip_spaces(line, 0);
    let a1 = skip_word(line, a0);
    let b0 = skip_spaces(line, a1);
    let b1 = skip_word(line, b0);
    let address_word = line.subrange(a0 as int, a1 as int);
    let digits = address_word.drop_last();
    let value_word = line.subrange(b0 as int, b1 as int);
    let address = hex_value(digits);
    let value = hex_value(value_word);
    if a0 == line.len() {
        LineParse::Skip
    } else if address_word.len() >= 2 && address_word[0] == SLASH && address_word[1] == SLASH {
        LineParse::Skip
    } else if !(address_word.len() >= 2 && address_word.last() == COLON && all_hex(digits)) {
        LineParse::Bad(LoadErrorKind::BadAddress)
    } else if value_word.len() == 0 {
        LineParse::Bad(LoadErrorKind::MissingValue)
    } else if value_word.len() != 2 && value_word.len() != 4 {
        LineParse::Bad(LoadErrorKind::BadWidth)
    } else if !all_hex(value_word) {
        LineParse::Bad(LoadErrorKind::BadValue)
    } else if value_word.len() == 2 {
        if address < MEMORY_SIZE {
            LineParse::Write(Store::Byte { address: address as u16, value: value as u8 })
        } else {
            LineParse::Bad(LoadErrorKind::AddressOutOfRange)
        }
    } else {
        if address + 1 < MEMORY_SIZE {
            LineParse::Write(Store::Word { address: address as u16, word: value as u16 })
        } else {
            LineParse::Bad(LoadErrorKind::AddressOutOfRange)
        }
    }
}

/// The text cut at each newline; `n` newlines give `n + 1` lines.
pub open spec fn split_lines(s: Seq<u8>) -> Seq<Seq<u8>>
    decreases s.len(),
{
    if s.len() == 0 {
        seq![Seq::empty()]
    } else {
        let before = split_lines(s.drop_last());
        if s.last() == NEWLINE {
            before.push(Seq::empty())
        } else {
            before.update(before.len() - 1, before.last().push(s.last()))
        }
    }
}

/// The writes that the lines ask for, in order, or the first bad line.
pub open spec fn parse_lines(lines: Seq<Seq<u8>>) -> Result<Seq<Store>, LoadError>
    decreases lines.len(),
{
    if lines.len() == 0 {
        Ok(Seq::empty())
    } else {
        match parse_lines(lines.drop_last()) {
            Err(e) => Err(e),
            Ok(stores) => match parse_line(lines.last()) {
                LineParse::Skip => Ok(stores),
                LineParse::Write(st) => Ok(stores.push(st)),
                LineParse::Bad(kind) => Err(LoadError { line: lines.len() as usize, kind }),
            },
        }
    }
}

/// The writes that a listing asks for, or the first bad line.
pub open spec fn parse_program_spec(text: Seq<u8>) -> Result<Seq<Store>, LoadError> {
    parse_lines(split_lines(text))
}

/// A write that lies wholly inside memory.
pub open spec fn store_fits(st: Store) -> bool {
    match st {
        Store::Byte { address, .. } => address < MEMORY_SIZE,
        Store::Word { address, .. } => address + 1 < MEMORY_SIZE,
    }
}

pub open spec fn store_into(bytes: Seq<u8>, st: Store) -> Seq<u8> {
    match st {
        Store::Byte { address, value } => bytes.update(address as int, value),
        Store::Word { address, word } => with_word(bytes, address as int, word),
    }
}

/// Memory after the writes, in order.
pub open spec fn apply_stores(bytes: Seq<u8>, stores: Seq<Store>) -> Seq<u8>
    decreases stores.len(),
{
    if stores.len() == 0 {
        bytes
    } else {
        store_into(apply_stores(bytes, stores.drop_last()), stores.last())
    }
}

pub open spec fn pow16(n: nat) -> nat
    decreases n,
{
    if n == 0 {
        1
    } else {
        16 * pow16((n - 1) as nat)
    }
}

proof fn lemma_hex_value_bound(s: Seq<u8>)
    requires
        all_hex(s),
    ensures
        hex_value(s) < pow16(s.len()),
    decreases s.len(),
{
    if s.len() > 0 {
        let t = s.drop_last();
        assert(all_hex(t)) by {
            assert forall|i: int| 0 <= i < t.len() implies is_hex_digit(#[trigger] t[i]) by {
                assert(t[i] == s[i]);
            }
        }
        lemma_hex_value_bound(t);
        assert(is_hex_digit(s[s.len() - 1]));
    }
}

/// Every write that a successful parse yields fits in memory.
proof fn lemma_stores_fit(lines: Seq<Seq<u8>>)
    requires
        parse_lines(lines) is Ok,
    ensures
        forall|k: int|
            0 <= k < parse_lines(lines)->Ok_0.len() ==> store_fits(
                #[trigger] parse_lines(lines)->Ok_0[k],
            ),
    decreases lines.len(),
{
    if lines.len() > 0 {
        lemma_stores_fit(lines.drop_last());
    }
}

/// A line that is refused holds at least one character.
proof fn lemma_bad_line_nonempty(line: Seq<u8>)
    requires
        parse_line(line) is Bad,
    ensures
        line.len() > 0,
{
}

/// Lines split off a prefix of the text, but for the last one, begin the
/// lines of any longer prefix.
proof fn lemma_split_prefix(s: Seq<u8>, i: nat, j: nat)
    requires
        i <= j <= s.len(),
    ensures
        split_lines(s.take(i as int)).len() >= 1,
        split_lines(s.take(i as int)).len() <= split_lines(s.take(j as int)).len(),
        split_lines(s.take(i as int)).drop_last() =~= split_lines(s.take(j as int)).subrange(
            0,
            split_lines(s.take(i as int)).len() - 1,
        ),
    decreases j - i,
{
    lemma_split_nonempty(s.take(i as int));
    if j > i {
        lemma_split_prefix(s, i, (j - 1) as nat);
        assert(s.take(j as int).drop_last() =~= s.take(j - 1));
        lemma_split_nonempty(s.take(j - 1));
    }
}

proof fn lemma_split_nonempty(s: Seq<u8>)
    ensures
        split_lines(s).len() >= 1,
    decreases s.len(),
{
    if s.len() > 0 {
        lemma_split_nonempty(s.drop_last());
    }
}

/// Once a prefix of the lines fails, every longer run of lines fails the
/// same way.
proof fn lemma_parse_error_sticks(a: Seq<Seq<u8>>, b: Seq<Seq<u8>>)
    requires
        a.len() <= b.len(),
        a =~= b.subrange(0, a.len() as int),
        parse_lines(a) is Err,
    ensures
        parse_lines(b) == parse_lines(a),
    decreases b.len(),
{
    if b.len() > a.len() {
        assert(a =~= b.drop_last().subrange(0, a.len() as int));
        lemma_parse_error_sticks(a, b.drop_last());
    } else {
        assert(a =~= b);
    }
}

fn is_space_byte(b: u8) -> (r: bool)
    ensures
        r == is_space(b),
{
    b == 0x20 || b == 0x09 || b == 0x0A || b == 0x0B || b == 0x0C || b == 0x0D
}

fn skip_spaces_at(s: &Vec<u8>, i: usize) -> (r: usize)
    requires
        i <= s.len(),
    ensures
        r == skip_spaces(s@, i as nat),
        i <= r <= s.len(),
{
    let mut k = i;
    while k < s.len() && is_space_byte(s[k])
        invariant
            i <= k <= s.len(),
            skip_spaces(s@, i as nat) == skip_spaces(s@, k as nat),
        decreases s.len() - k,
    {
        k = k + 1;
    }
    k
}

fn skip_word_at(s: &Vec<u8>, i: usize) -> (r: usize)
    requires
        i <= s.len(),
    ensures
        r == skip_word(s@, i as nat),
        i <= r <= s.len(),
{
    let mut k = i;
    while k < s.len() && !is_space_byte(s[k])
        invariant
            i <= k <= s.len(),
            skip_word(s@, i as nat) == skip_word(s@, k as nat),
        decreases s.len() - k,
    {
        k = k + 1;
    }
    k
}

/// The value of `s[start..end]` as hex digits, capped at `HEX_CAP`, or
/// `None` if a character is not a hex digit.
fn hex_capped(s: &Vec<u8>, start: usize, end: usize) -> (r: Option<u32>)
    requires
        start <= end <= s.len(),
    ensures
        r is Some <==> all_hex(s@.subrange(start as int, end as int)),
        r matches Some(v) ==> v == if hex_value(s@.subrange(start as int, end as int)) < HEX_CAP {
            hex_value(s@.subrange(start as int, end as int))
        } else {
            HEX_CAP as nat
        },
{
    let mut v: u32 = 0;
    let mut k = start;
    while k < end
        invariant
            start <= k <= end <= s.len(),
            all_hex(s@.subrange(start as int, k as int)),
            v == if hex_value(s@.subrange(start as int, k as int)) < HEX_CAP {
                hex_value(s@.subrange(start as int, k as int))
            } else {
                HEX_CAP as nat
            },
        decreases end - k,
    {
        let b = s[k];
        let d: u32 = if 0x30 <= b && b <= 0x39 {
            (b - 0x30) as u32
        } else if 0x41 <= b && b <= 0x46 {
            (b - 0x41 + 10) as u32
        } else if 0x61 <= b && b <= 0x66 {
            (b - 0x61 + 10) as u32
        } else {
            proof {
                assert(!is_hex_digit(s@.subrange(start as int, end as int)[k - start]));
            }
            return None;
        };
        let ghost before = s@.subrange(start as int, k as int);
        let ghost after = s@.subrange(start as int, k + 1);
        assert(after.drop_last() =~= before);
        assert(after.last() == b);
        v = if v >= HEX_CAP || v * 16 + d >= HEX_CAP {
            HEX_CAP
        } else {
            v * 16 + d
        };
        assert(all_hex(after)) by {
            assert forall|t: int| 0 <= t < after.len() implies is_hex_digit(#[trigger] after[t]) by {
                if t < before.len() {
                    assert(after[t] == before[t]);
                }
            }
        }
        k = k + 1;
    }
    Some(v)
}

/// The meaning of one line, computed.
#[verifier::rlimit(30)]
fn parse_line_exec(line: &Vec<u8>) -> (r: LineParse)
    ensures
        r == parse_line(line@),
{
    let a0 = skip_spaces_at(line, 0);
    if a0 == line.len() {
        return LineParse::Skip;
    }
    let a1 = skip_word_at(line, a0);
    let b0 = skip_spaces_at(line, a1);
    let b1 = skip_word_at(line, b0);
    let ghost address_word = line@.subrange(a0 as int, a1 as int);
    let ghost value_word = line@.subrange(b0 as int, b1 as int);
    if a1 - a0 >= 2 && line[a0] == SLASH && line[a0 + 1] == SLASH {
        assert(address_word[0] == line@[a0 as int]);
        assert(address_word[1] == line@[a0 + 1]);
        return LineParse::Skip;
    }
    if !(a1 - a0 >= 2 && line[a1 - 1] == COLON) {
        return LineParse::Bad(LoadErrorKind::BadAddress);
    }
    assert(address_word.drop_last() =~= line@.subrange(a0 as int, a1 - 1));
    let address = match hex_capped(line, a0, a1 - 1) {
        None => {
            return LineParse::Bad(LoadErrorKind::BadAddress);
        },
        Some(v) => v,
    };
    let width = b1 - b0;
    if width == 0 {
        return LineParse::Bad(LoadErrorKind::MissingValue);
    }
    if width != 2 && width != 4 {
        return LineParse::Bad(LoadErrorKind::BadWidth);
    }
    let value = match hex_capped(line, b0, b1) {
        None => {
            return LineParse::Bad(LoadErrorKind::BadValue);
        },
        Some(v) => v,
    };
    proof {
        lemma_hex_value_bound(value_word);
        assert(pow16(0) == 1);
        assert(pow16(1) == 16);
        assert(pow16(2) == 256);
        assert(pow16(3) == 0x1000);
        assert(pow16(4) == 0x10000);
    }
    if width == 2 {
        if (address as usize) < MEMORY_SIZE {
            LineParse::Write(Store::Byte { address: address as u16, value: value as u8 })
        } else {
            LineParse::Bad(LoadErrorKind::AddressOutOfRange)
        }
    } else {
        if (address as usize) + 1 < MEMORY_SIZE {
            LineParse::Write(Store::Word { address: address as u16, word: value as u16 })
        } else {
            LineParse::Bad(LoadErrorKind::AddressOutOfRange)
        }
    }
}

/// Parses a whole listing: the writes it asks for, in order, or the first
/// bad line with its 1-based number.
#[verifier::rlimit(30)]
pub fn parse_program(text: &[u8]) -> (r: Result<Vec<Store>, LoadError>)
    ensures
        match r {
            Ok(stores) => parse_program_spec(text@) == Ok::<Seq<Store>, LoadError>(stores@),
            Err(e) => parse_program_spec(text@) == Err::<Seq<Store>, LoadError>(e),
        },
{
    let mut stores: Vec<Store> = Vec::new();
    let mut line: Vec<u8> = Vec::new();
    let mut line_count: usize = 0;
    let ghost mut done: Seq<Seq<u8>> = Seq::empty();
    let mut i: usize = 0;
    assert(text@.take(0) =~= Seq::<u8>::empty());
    assert(split_lines(text@.take(0)) =~= done.push(line@));
    while i < text.len()
        invariant
            i <= text.len(),
            split_lines(text@.take(i as int)) == done.push(line@),
            parse_lines(done) == Ok::<Seq<Store>, LoadError>(stores@),
            line_count == done.len(),
            done.len() + line@.len() <= i,
        decreases text.len() - i,
    {
        let b = text[i];
        let ghost prefix = text@.take(i + 1);
        assert(prefix.drop_last() =~= text@.take(i as int));
        assert(prefix.last() == b);
        if b == NEWLINE {
            let parsed = parse_line_exec(&line);
            let ghost lines = done.push(line@);
            assert(lines.drop_last() =~= done);
            match parsed {
                LineParse::Skip => {},
                LineParse::Write(st) => {
                    stores.push(st);
                },
                LineParse::Bad(kind) => {
                    proof {
                        assert(split_lines(prefix) =~= lines.push(Seq::empty()));
                        lemma_split_prefix(text@, (i + 1) as nat, text.len() as nat);
                        assert(text@.take(text.len() as int) =~= text@);
                        lemma_parse_error_sticks(lines, split_lines(text@));
                    }
                    return Err(LoadError { line: line_count + 1, kind });
                },
            }
            proof {
                done = lines;
            }
            line_count = line_count + 1;
            line = Vec::new();
            assert(split_lines(prefix) =~= done.push(line@));
        } else {
            line.push(b);
            assert(split_lines(prefix) =~= done.push(line@));
        }
        i = i + 1;
    }
    assert(text@.take(text.len() as int) =~= text@);
    let ghost lines = done.push(line@);
    assert(lines.drop_last() =~= done);
    match parse_line_exec(&line) {
        LineParse::Skip => Ok(stores),
        LineParse::Write(st) => {
            stores.push(st);
            Ok(stores)
        },
        LineParse::Bad(kind) => {
            proof {
                lemma_bad_line_nonempty(line@);
            }
            Err(LoadError { line: line_count + 1, kind })
        },
    }
}

/// Performs the writes, in order, on the byte memory.
pub fn apply_program(memory: &mut Memory, stores: &Vec<Store>)
    requires
        old(memory).wf(),
        forall|k: int| 0 <= k < stores.len() ==> store_fits(#[trigger] stores@[k]),
    ensures
        final(memory).wf(),
        final(memory).bytes() == apply_stores(old(memory).bytes(), stores@),
        final(memory).pixels() == old(memory).pixels(),
{
    let mut k: usize = 0;
    while k < stores.len()
        invariant
            memory.wf(),
            k <= stores.len(),
            forall|t: int| 0 <= t < stores.len() ==> store_fits(#[trigger] stores@[t]),
            memory.bytes() == apply_stores(old(memory).bytes(), stores@.take(k as int)),
            memory.pixels() == old(memory).pixels(),
        decreases stores.len() - k,
    {
        assert(stores@.take(k + 1).drop_last() =~= stores@.take(k as int));
        assert(stores@.take(k + 1).last() == stores@[k as int]);
        match stores[k] {
            Store::Byte { address, value } => {
                memory.set8(address as usize, value);
            },
            Store::Word { address, word } => {
                memory.set16(address as usize, word);
            },
        }
        k = k + 1;
    }
    assert(stores@.take(stores.len() as int) =~= stores@);
}

/// Every write of a successfully parsed listing fits in memory.
pub proof fn lemma_program_fits(text: Seq<u8>)
    requires
        parse_program_spec(text) is Ok,
    ensures
        forall|k: int|
            0 <= k < parse_program_spec(text)->Ok_0.len() ==> store_fits(
                #[trigger] parse_program_spec(text)->Ok_0[k],
            ),
{
    lemma_stores_fit(split_lines(text));
}

} // verus!
