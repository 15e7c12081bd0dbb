//! Splitting and reading of short texts: addresses, namespaces, mount
//! options and the lines of an fstab file.

use vstd::prelude::*;
use vstd::string::{StrSliceExecFns, StringExecFns};

verus! {

/// Where a text is cut: at a given character, or at white space.
#[derive(Clone, Copy, Debug, PartialEq, Eq, Structural)]
pub enum Separator {
    Char(char),
    Whitespace,
}

/// The characters with Unicode's `White_Space` property.
pub open spec fn is_white_space(c: char) -> bool {
    let n = c as u32;
    ||| 0x09 <= n <= 0x0d
    ||| n == 0x20
    ||| n == 0x85
    ||| n == 0xa0
    ||| n == 0x1680
    ||| 0x2000 <= n <= 0x200a
    ||| n == 0x2028
    ||| n == 0x2029
    ||| n == 0x202f
    ||| n == 0x205f
    ||| n == 0x3000
}

impl Separator {
    /// Whether the text is cut at `c`.
    pub open spec fn cuts(self, c: char) -> bool {
        match self {
            Separator::Char(sep) => c == sep,
            Separator::Whitespace => is_white_space(c),
        }
    }

    /// Whether the text is cut at `c`.
    pub fn is_at(self, c: char) -> (b: bool)
        ensures
            b == self.cuts(c),
    {
        match self {
            Separator::Char(sep) => c == sep,
            Separator::Whitespace => {
                let n = c as u32;
                (0x09 <= n && n <= 0x0d) || n == 0x20 || n == 0x85 || n == 0xa0 || n == 0x1680
                    || (0x2000 <= n && n <= 0x200a) || n == 0x2028 || n == 0x2029 || n == 0x202f
                    || n == 0x205f || n == 0x3000
            },
        }
    }
}

/// The first place at which `s` is cut, or the length of `s` if it is cut
/// nowhere.
pub open spec fn first_cut(s: Seq<char>, sep: Separator) -> nat
    decreases s.len(),
{
    if s.len() == 0 || sep.cuts(s[0]) {
        0
    } else {
        1 + first_cut(s.drop_first(), sep)
    }
}

/// The pieces between the cuts of `s`. A text without a cut is one piece;
/// two cuts side by side have an empty piece between them.
pub open spec fn split(s: Seq<char>, sep: Separator) -> Seq<Seq<char>>
    decreases s.len(),
    via split_decreases
{
    let i = first_cut(s, sep);
    if i >= s.len() {
        seq![s]
    } else {
        seq![s.take(i as int)] + split(s.skip(i as int + 1), sep)
    }
}

#[via_fn]
proof fn split_decreases(s: Seq<char>, sep: Separator) {
    lemma_first_cut(s, sep);
}

/// The pieces of `s` that are not empty.
pub open spec fn words(s: Seq<char>, sep: Separator) -> Seq<Seq<char>> {
    split(s, sep).filter(|piece: Seq<char>| piece.len() > 0)
}

/// What `first_cut` finds: nothing before it is a cut, and it is one unless
/// it is the end.
pub proof fn lemma_first_cut(s: Seq<char>, sep: Separator)
    ensures
        first_cut(s, sep) <= s.len(),
        first_cut(s, sep) < s.len() ==> sep.cuts(s[first_cut(s, sep) as int]),
        forall|j: int| 0 <= j < first_cut(s, sep) ==> !sep.cuts(#[trigger] s[j]),
    decreases s.len(),
{
    if s.len() == 0 || sep.cuts(s[0]) {
    } else {
        let rest = s.drop_first();
        lemma_first_cut(rest, sep);
        assert forall|j: int| 0 <= j < first_cut(s, sep) implies !sep.cuts(#[trigger] s[j]) by {
            if j > 0 {
                assert(s[j] == rest[j - 1]);
            }
        }
    }
}

/// The first cut is the first place that is one.
pub proof fn lemma_first_cut_is(s: Seq<char>, sep: Separator, i: nat)
    requires
        i <= s.len(),
        i < s.len() ==> sep.cuts(s[i as int]),
        forall|j: int| 0 <= j < i ==> !sep.cuts(#[trigger] s[j]),
    ensures
        first_cut(s, sep) == i,
{
    lemma_first_cut(s, sep);
    let k = first_cut(s, sep);
    if k < i {
        assert(!sep.cuts(s[k as int]));
    } else if i < k {
        assert(sep.cuts(s[i as int]));
    }
}

/// The pieces of a text are of characters that are no cuts, and there is
/// one more of them than there are cuts.
pub proof fn lemma_split_pieces(s: Seq<char>, sep: Separator)
    ensures
        split(s, sep).len() >= 1,
        forall|k: int, j: int|
            0 <= k < split(s, sep).len() && 0 <= j < split(s, sep)[k].len() ==> !sep.cuts(
                #[trigger] split(s, sep)[k][j],
            ),
    decreases s.len(),
{
    lemma_first_cut(s, sep);
    let i = first_cut(s, sep);
    if i < s.len() {
        lemma_split_pieces(s.skip(i as int + 1), sep);
    }
}

/// Copies the characters from `from` up to `to` out of `s`.
fn piece(s: &str, from: usize, to: usize) -> (p: String)
    requires
        from <= to <= s@.len(),
    ensures
        p@ == s@.subrange(from as int, to as int),
{
    s.substring_char(from, to).to_owned()
}

/// Splits `s` at every cut.
pub fn split_at(s: &str, sep: Separator) -> (pieces: Vec<String>)
    ensures
        pieces.deep_view() == split(s@, sep),
{
    let n = s.unicode_len();
    let mut pieces: Vec<String> = Vec::new();
    let mut start: usize = 0;
    let mut i: usize = 0;
    proof {
        assert(s@.skip(0) =~= s@);
        assert(pieces.deep_view() + split(s@, sep) =~= split(s@, sep));
    }
    while i < n
        invariant
            n == s@.len(),
            start <= i <= n,
            forall|j: int| start <= j < i ==> !sep.cuts(#[trigger] s@[j]),
            split(s@, sep) == pieces.deep_view() + split(s@.skip(start as int), sep),
        decreases n - i,
    {
        let c = s.get_char(i);
        if sep.is_at(c) {
            let p = piece(s, start, i);
            proof {
                let rest = s@.skip(start as int);
                assert forall|j: int| 0 <= j < i - start implies !sep.cuts(#[trigger] rest[j]) by {
                    assert(rest[j] == s@[start + j]);
                }
                lemma_first_cut_is(rest, sep, (i - start) as nat);
                assert(rest.take(i - start) =~= p@);
                assert(rest.skip(i - start + 1) =~= s@.skip(i + 1));
            }
            let ghost before = pieces.deep_view();
            let ghost added = p@;
            pieces.push(p);
            proof {
                assert(pieces.deep_view() =~= before.push(added));
                assert(before + (seq![added] + split(s@.skip(i + 1), sep)) =~= before.push(added)
                    + split(s@.skip(i + 1), sep));
            }
            start = i + 1;
        }
        i = i + 1;
    }
    let p = piece(s, start, n);
    proof {
        let rest = s@.skip(start as int);
        assert forall|j: int| 0 <= j < n - start implies !sep.cuts(#[trigger] rest[j]) by {
            assert(rest[j] == s@[start + j]);
        }
        lemma_first_cut_is(rest, sep, (n - start) as nat);
        assert(rest =~= p@);
    }
    let ghost before = pieces.deep_view();
    let ghost added = p@;
    pieces.push(p);
    assert(pieces.deep_view() =~= before + seq![added]);
    pieces
}

/// Splits `s` at every cut and drops the empty pieces.
pub fn words_of(s: &str, sep: Separator) -> (found: Vec<String>)
    ensures
        found.deep_view() == words(s@, sep),
{
    let mut pieces = split_at(s, sep);
    let ghost all = pieces.deep_view();
    let ghost keep = |piece: Seq<char>| piece.len() > 0;
    let mut found: Vec<String> = Vec::new();
    let mut i: usize = 0;
    while i < pieces.len()
        invariant
            i <= pieces.len(),
            all == pieces.deep_view(),
            keep == |piece: Seq<char>| piece.len() > 0,
            found.deep_view() == all.take(i as int).filter(keep),
        decreases pieces.len() - i,
    {
        let ghost before = found.deep_view();
        proof {
            reveal(Seq::filter);
            assert(all.take(i + 1).drop_last() =~= all.take(i as int));
            assert(all.take(i + 1).last() == pieces[i as int]@);
        }
        if pieces[i].as_str().unicode_len() > 0 {
            let p = pieces[i].clone();
            found.push(p);
            assert(found.deep_view() =~= before.push(all[i as int]));
        }
        i = i + 1;
    }
    assert(all.take(i as int) =~= all);
    found
}

/// The pieces with `sep` between them.
pub open spec fn joined(pieces: Seq<Seq<char>>, sep: Seq<char>) -> Seq<char>
    decreases pieces.len(),
{
    if pieces.len() == 0 {
        Seq::empty()
    } else if pieces.len() == 1 {
        pieces[0]
    } else {
        joined(pieces.drop_last(), sep) + sep + pieces.last()
    }
}

/// Puts `sep` between the pieces.
pub fn join(pieces: &Vec<String>, sep: &str) -> (s: String)
    ensures
        s@ == joined(pieces.deep_view(), sep@),
{
    let mut s = String::new();
    let ghost all = pieces.deep_view();
    let mut i: usize = 0;
    while i < pieces.len()
        invariant
            i <= pieces.len(),
            all == pieces.deep_view(),
            s@ == joined(all.take(i as int), sep@),
        decreases pieces.len() - i,
    {
        proof {
            let next = all.take(i + 1);
            assert(next.drop_last() =~= all.take(i as int));
            assert(next.last() == pieces[i as int]@);
        }
        if i > 0 {
            s.append(sep);
        }
        s.append(pieces[i].as_str());
        proof {
            if i == 0 {
                assert(s@ =~= pieces[0]@);
            }
        }
        i = i + 1;
    }
    assert(all.take(i as int) =~= all);
    s
}

/// Whether `c` is one of the digits `0` to `9`.
pub open spec fn is_digit(c: char) -> bool {
    '0' <= c <= '9'
}

/// The number that the decimal digits of `s` spell.
pub open spec fn decimal(s: Seq<char>) -> nat
    decreases s.len(),
{
    if s.len() == 0 {
        0
    } else {
        decimal(s.drop_last()) * 10 + (s.last() as u32 - '0' as u32) as nat
    }
}

/// The digits of a number in text: the text itself, or what follows a
/// leading plus sign.
pub open spec fn digits_of(s: Seq<char>) -> Seq<char> {
    if s.len() > 0 && s[0] == '+' {
        s.drop_first()
    } else {
        s
    }
}

/// Whether `s` spells a number that fits 32 bits: at least one decimal
/// digit and nothing else, but for a plus sign that may lead.
pub open spec fn spells_u32(s: Seq<char>) -> bool {
    let d = digits_of(s);
    &&& d.len() > 0
    &&& forall|i: int| 0 <= i < d.len() ==> is_digit(#[trigger] d[i])
    &&& decimal(d) <= u32::MAX
}

/// A longer text of digits spells no smaller a number than its beginning.
proof fn lemma_decimal_grows(s: Seq<char>, k: int)
    requires
        0 <= k <= s.len(),
    ensures
        decimal(s.take(k)) <= decimal(s),
    decreases s.len() - k,
{
    if k < s.len() {
        lemma_decimal_grows(s, k + 1);
        assert(s.take(k + 1).drop_last() =~= s.take(k));
    } else {
        assert(s.take(k) =~= s);
    }
}

/// Reads a number of 32 bits from its decimal digits.
pub fn parse_u32(s: &str) -> (n: Option<u32>)
    ensures
        n is Some <==> spells_u32(s@),
        n matches Some(v) ==> v == decimal(digits_of(s@)),
{
    let len = s.unicode_len();
    let first: usize = if len > 0 && s.get_char(0) == '+' {
        1
    } else {
        0
    };
    let ghost d = digits_of(s@);
    assert(d =~= s@.skip(first as int));
    if first == len {
        return None;
    }
    let mut value: u64 = 0;
    let mut i: usize = first;
    while i < len
        invariant
            len == s@.len(),
            first <= i <= len,
            d == digits_of(s@),
            d == s@.skip(first as int),
            forall|j: int| 0 <= j < i - first ==> is_digit(#[trigger] d[j]),
            value == decimal(d.take(i - first)),
            value <= u32::MAX,
        decreases len - i,
    {
        let c = s.get_char(i);
        assert(d[i - first] == c);
        if !('0' <= c && c <= '9') {
            assert(!is_digit(d[i - first]));
            return None;
        }
        let digit: u64 = (c as u32 - '0' as u32) as u64;
        proof {
            let next = d.take(i - first + 1);
            assert(next.drop_last() =~= d.take(i - first));
            assert(next.last() == c);
        }
        value = value * 10 + digit;
        assert(value == decimal(d.take(i - first + 1)));
        if value > u32::MAX as u64 {
            proof {
                lemma_decimal_grows(d, i - first + 1);
            }
            return None;
        }
        i = i + 1;
    }
    assert(d.take(i - first) =~= d);
    Some(value as u32)
}

/// The character for a digit.
pub open spec fn digit_char(d: nat) -> char {
    if d == 0 {
        '0'
    } else if d == 1 {
        '1'
    } else if d == 2 {
        '2'
    } else if d == 3 {
        '3'
    } else if d == 4 {
        '4'
    } else if d == 5 {
        '5'
    } else if d == 6 {
        '6'
    } else if d == 7 {
        '7'
    } else if d == 8 {
        '8'
    } else {
        '9'
    }
}

/// The decimal digits of a number, without leading zeros.
pub open spec fn digits(n: nat) -> Seq<char>
    decreases n,
{
    if n < 10 {
        seq![digit_char(n)]
    } else {
        digits(n / 10).push(digit_char(n % 10))
    }
}

/// The digits of a number spell the number.
pub proof fn lemma_digits_spell(n: nat)
    ensures
        digits(n).len() > 0,
        forall|i: int| 0 <= i < digits(n).len() ==> is_digit(#[trigger] digits(n)[i]),
        digits(n)[0] != '+',
        decimal(digits(n)) == n,
    decreases n,
{
    if n < 10 {
        let s = digits(n);
        assert(s.drop_last() =~= Seq::<char>::empty());
        assert(decimal(s.drop_last()) == 0);
    } else {
        lemma_digits_spell(n / 10);
        let s = digits(n);
        assert(s.drop_last() =~= digits(n / 10));
        assert(s.last() == digit_char(n % 10));
    }
}

/// A number of 32 bits is read back from its digits.
pub proof fn lemma_digits_round_trip(n: u32)
    ensures
        spells_u32(digits(n as nat)),
        decimal(digits_of(digits(n as nat))) == n,
{
    lemma_digits_spell(n as nat);
}

/// The text of one digit.
fn digit_text(d: u32) -> (s: &'static str)
    requires
        d < 10,
    ensures
        s@ == seq![digit_char(d as nat)],
{
    proof {
        reveal_strlit("0");
        reveal_strlit("1");
        reveal_strlit("2");
        reveal_strlit("3");
        reveal_strlit("4");
        reveal_strlit("5");
        reveal_strlit("6");
        reveal_strlit("7");
        reveal_strlit("8");
        reveal_strlit("9");
    }
    let s = match d {
        0 => "0",
        1 => "1",
        2 => "2",
        3 => "3",
        4 => "4",
        5 => "5",
        6 => "6",
        7 => "7",
        8 => "8",
        _ => "9",
    };
    assert(s@ =~= seq![digit_char(d as nat)]);
    s
}

/// Writes a number in decimal digits.
pub fn decimal_text(n: u32) -> (s: String)
    ensures
        s@ == digits(n as nat),
    decreases n,
{
    if n < 10 {
        digit_text(n).to_owned()
    } else {
        let mut s = decimal_text(n / 10);
        s.append(digit_text(n % 10));
        assert(s@ =~= digits(n as nat));
        s
    }
}

} // verus!
