//! Text helpers: comparison, case folding, search, decimal notation and outcomes that carry text.
use vstd::prelude::*;
use vstd::string::StringExecFns;
use vstd::utf8::{encode_utf8, encode_utf8_decode_utf8};

verus! {

/// A character in ASCII lower case; characters outside `A`..`Z` stand for themselves.
pub open spec fn lower_char(c: char) -> char {
    if 'A' <= c && c <= 'Z' {
        ((c as u32 + 32) as u32) as char
    } else {
        c
    }
}

/// A text in ASCII lower case.
pub open spec fn lower_text(s: Seq<char>) -> Seq<char> {
    s.map_values(|c: char| lower_char(c))
}

/// `part` stands somewhere in `s`, without gaps.
pub open spec fn has_part(s: Seq<char>, part: Seq<char>) -> bool {
    exists|i: int| #[trigger] part_at(s, part, i)
}

/// `part` stands in `s` at position `i`.
pub open spec fn part_at(s: Seq<char>, part: Seq<char>, i: int) -> bool {
    &&& 0 <= i
    &&& i + part.len() <= s.len()
    &&& s.subrange(i, i + part.len()) == part
}

/// The character of a decimal digit.
pub open spec fn digit(d: int) -> char {
    ((48 + d) as u32) as char
}

/// The decimal notation of a natural number, without leading zeros.
pub open spec fn decimal_nat(n: nat) -> Seq<char>
    decreases n,
{
    if n < 10 {
        seq![digit(n as int)]
    } else {
        decimal_nat(n / 10).push(digit((n % 10) as int))
    }
}

/// The decimal notation of an integer, with a leading `-` where it is negative.
pub open spec fn decimal(i: int) -> Seq<char> {
    if i < 0 {
        seq!['-'] + decimal_nat((-i) as nat)
    } else {
        decimal_nat(i as nat)
    }
}

/// What a fallible text computation yields, as characters.
pub open spec fn text_outcome(r: Result<String, String>) -> Result<Seq<char>, Seq<char>> {
    match r {
        Ok(text) => Ok(text@),
        Err(message) => Err(message@),
    }
}

/// What a fallible byte computation yields, as bytes or the characters of the message.
pub open spec fn byte_outcome(r: Result<Vec<u8>, String>) -> Result<Seq<u8>, Seq<char>> {
    match r {
        Ok(bytes) => Ok(bytes@),
        Err(message) => Err(message@),
    }
}

/// `String::push` appends the given character.
pub assume_specification[ String::push ](s: &mut String, c: char)
    ensures
        final(s)@ == old(s)@.push(c),
;

/// Whether two texts hold the same characters.
pub(crate) fn same_text(a: &str, b: &str) -> (r: bool)
    ensures
        r == (a@ == b@),
{
    let x = a.as_bytes();
    let y = b.as_bytes();
    if x.len() != y.len() {
        return false;
    }
    let mut i: usize = 0;
    while i < x.len()
        invariant
            i <= x@.len(),
            x@.len() == y@.len(),
            x@ == encode_utf8(a@),
            y@ == encode_utf8(b@),
            forall|j: int| 0 <= j < i ==> x@[j] == y@[j],
        decreases x@.len() - i,
    {
        if x[i] != y[i] {
            return false;
        }
        i += 1;
    }
    proof {
        assert(x@ == y@);
        encode_utf8_decode_utf8(a@);
        encode_utf8_decode_utf8(b@);
    }
    true
}

/// The text behind a label.
pub(crate) fn prefixed(label: &str, text: &str) -> (r: String)
    ensures
        r@ == label@ + text@,
{
    let mut r = label.to_string();
    r.append(text);
    r
}

/// The three texts, one after the other.
pub(crate) fn joined(first: &str, second: &str, third: &str) -> (r: String)
    ensures
        r@ == first@ + second@ + third@,
{
    let mut r = first.to_string();
    r.append(second);
    r.append(third);
    r
}

fn lower(c: char) -> (r: char)
    ensures
        r == lower_char(c),
{
    if 'A' <= c && c <= 'Z' {
        ((c as u8) + 32u8) as char
    } else {
        c
    }
}

/// The text with every ASCII capital letter replaced by its small letter.
pub fn ascii_lowercase(text: &str) -> (r: String)
    ensures
        r@ == lower_text(text@),
{
    let mut r = String::new();
    for c in it: text.chars()
        invariant
            it.seq() == text@,
            r@ == lower_text(text@.take(it.index())),
    {
        assert(text@.take(it.index() + 1) == text@.take(it.index()).push(c));
        r.push(lower(c));
    }
    assert(text@.take(text@.len() as int) == text@);
    r
}

/// The characters of a text.
pub(crate) fn characters(text: &str) -> (r: Vec<char>)
    ensures
        r@ == text@,
{
    let mut r: Vec<char> = Vec::new();
    for c in it: text.chars()
        invariant
            it.seq() == text@,
            r@ == text@.take(it.index()),
    {
        r.push(c);
    }
    r
}

fn stands_at(text: &Vec<char>, part: &Vec<char>, start: usize) -> (r: bool)
    requires
        start + part@.len() <= text@.len(),
    ensures
        r == part_at(text@, part@, start as int),
{
    let total: usize = text.len();
    let mut i: usize = 0;
    while i < part.len()
        invariant
            total == text@.len(),
            start + part@.len() <= total,
            i <= part@.len(),
            forall|j: int| 0 <= j < i ==> text@[start + j] == part@[j],
        decreases part@.len() - i,
    {
        if text[start + i] != part[i] {
            assert(text@.subrange(start as int, start + part@.len())[i as int] != part@[i as int]);
            return false;
        }
        i += 1;
    }
    assert(text@.subrange(start as int, start + part@.len()) == part@);
    true
}

/// Whether `part` stands somewhere in `text`.
pub fn contains_text(text: &str, part: &str) -> (r: bool)
    ensures
        r == has_part(text@, part@),
{
    let text_chars = characters(text);
    let part_chars = characters(part);
    if part_chars.len() > text_chars.len() {
        return false;
    }
    let last: usize = text_chars.len() - part_chars.len();
    let mut start: usize = 0;
    loop
        invariant
            text_chars@ == text@,
            part_chars@ == part@,
            last == text@.len() - part@.len(),
            start <= last,
            forall|i: int| 0 <= i < start ==> !#[trigger] part_at(text@, part@, i),
        decreases last - start,
    {
        if stands_at(&text_chars, &part_chars, start) {
            return true;
        }
        if start == last {
            return false;
        }
        start += 1;
    }
}

fn digit_char(d: u8) -> (r: char)
    requires
        d < 10,
    ensures
        r == digit(d as int),
{
    (48u8 + d) as char
}

/// The decimal notation of an unsigned number.
pub fn decimal_u64(n: u64) -> (r: String)
    ensures
        r@ == decimal(n as int),
    decreases n,
{
    let mut r = if n < 10 {
        String::new()
    } else {
        decimal_u64(n / 10)
    };
    r.push(digit_char((n % 10) as u8));
    assert(n < 10 ==> r@ == seq![digit(n as int)]);
    r
}

/// The decimal notation of a signed number.
pub fn decimal_i64(i: i64) -> (r: String)
    ensures
        r@ == decimal(i as int),
{
    if i >= 0 {
        decimal_u64(i as u64)
    } else {
        let magnitude: u64 = (-(i + 1)) as u64 + 1;
        let digits = decimal_u64(magnitude);
        let mut r = String::new();
        r.push('-');
        r.append(digits.as_str());
        assert(r@ == seq!['-'] + decimal_nat((-i) as nat));
        r
    }
}

/// Different numbers have different decimal notations.
pub proof fn decimal_nat_injective(a: nat, b: nat)
    requires
        decimal_nat(a) == decimal_nat(b),
    ensures
        a == b,
    decreases a,
{
    let x = decimal_nat(a);
    let y = decimal_nat(b);
    assert(x.last() == digit((a % 10) as int));
    assert(y.last() == digit((b % 10) as int));
    if a < 10 || b < 10 {
        decimal_nat_nonempty(a / 10);
        decimal_nat_nonempty(b / 10);
    } else {
        assert(x.drop_last() == decimal_nat(a / 10));
        assert(y.drop_last() == decimal_nat(b / 10));
        decimal_nat_injective(a / 10, b / 10);
    }
}

proof fn decimal_nat_nonempty(n: nat)
    ensures
        decimal_nat(n).len() > 0,
{
}

/// Folding to lower case a second time changes nothing.
pub proof fn lower_text_idempotent(s: Seq<char>)
    ensures
        lower_text(lower_text(s)) == lower_text(s),
{
}

} // verus!
