//! Text helpers: comparing string slices, joining texts with commas and
//! cutting a text at its commas, and writing a small number in decimal.

use vstd::prelude::*;
use vstd::string::StringExecFns;

verus! {

/// Whether two string slices hold the same characters.
pub fn same_text(left: &str, right: &str) -> (equal: bool)
    ensures
        equal == (left@ == right@),
{
    let a = String::from_str(left);
    let b = String::from_str(right);
    a == b
}

/// The parts written one after another with a comma between neighbours.
/// Where there is no part the text is empty; a single part stands alone.
pub open spec fn joined(parts: Seq<Seq<char>>) -> Seq<char>
    decreases parts.len(),
{
    if parts.len() == 0 {
        Seq::empty()
    } else if parts.len() == 1 {
        parts[0]
    } else {
        joined(parts.drop_last()) + seq![','] + parts.last()
    }
}

/// Joining one more part appends a comma and that part, or the part alone
/// where nothing was joined before.
pub proof fn lemma_joined_push(parts: Seq<Seq<char>>, part: Seq<char>)
    ensures
        joined(parts.push(part)) == if parts.len() == 0 {
            part
        } else {
            joined(parts) + seq![','] + part
        },
{
    assert(parts.push(part).drop_last() =~= parts);
}

/// Whether a text is free of commas.
pub open spec fn plain(text: Seq<char>) -> bool {
    forall|i: int| 0 <= i < text.len() ==> text[i] != ','
}

/// Whether the first `n` characters of a text are free of commas.
pub open spec fn plain_to(text: Seq<char>, n: nat) -> bool
    decreases n,
{
    n == 0 || (text[n - 1] != ',' && plain_to(text, (n - 1) as nat))
}

/// A text whose characters are free of commas one by one is free of commas.
pub proof fn lemma_plain_to(text: Seq<char>, n: nat)
    requires
        plain_to(text, n),
        n == text.len(),
    ensures
        plain(text),
{
    lemma_plain_before(text, n);
}

/// What [`plain_to`] says of each of the first `n` characters.
pub proof fn lemma_plain_before(text: Seq<char>, n: nat)
    requires
        plain_to(text, n),
    ensures
        forall|i: int| 0 <= i < n ==> text[i] != ',',
    decreases n,
{
    if n > 0 {
        lemma_plain_before(text, (n - 1) as nat);
    }
}

/// The pieces of a text between its commas, in order. A text without a comma
/// is one piece, and so is the empty text.
pub open spec fn pieces(text: Seq<char>) -> Seq<Seq<char>>
    decreases text.len(),
{
    if text.len() == 0 {
        seq![Seq::empty()]
    } else if text.last() == ',' {
        pieces(text.drop_last()).push(Seq::empty())
    } else {
        let front = pieces(text.drop_last());
        front.drop_last().push(front.last().push(text.last()))
    }
}

/// Every text has at least one piece.
pub proof fn lemma_pieces_len(text: Seq<char>)
    ensures
        pieces(text).len() >= 1,
    decreases text.len(),
{
    if text.len() > 0 {
        lemma_pieces_len(text.drop_last());
    }
}

/// Text without a comma, appended to any text, extends that text's last
/// piece.
pub proof fn lemma_pieces_append(text: Seq<char>, tail: Seq<char>)
    requires
        plain(tail),
    ensures
        pieces(text + tail) == pieces(text).drop_last().push(pieces(text).last() + tail),
    decreases tail.len(),
{
    let before = pieces(text);
    lemma_pieces_len(text);
    if tail.len() == 0 {
        assert(text + tail =~= text);
        assert(before.last() + tail =~= before.last());
        assert(before.drop_last().push(before.last()) =~= before);
    } else {
        let shorter = tail.drop_last();
        lemma_pieces_append(text, shorter);
        let front = pieces(text + shorter);
        assert((text + tail).drop_last() =~= text + shorter);
        assert((text + tail).last() == tail.last());
        assert(front.drop_last() =~= before.drop_last());
        assert((before.last() + shorter).push(tail.last()) =~= before.last() + tail);
    }
}

/// Joining loses nothing: the pieces of what was joined from comma-free
/// parts are those parts.
pub proof fn lemma_pieces_of_joined(parts: Seq<Seq<char>>)
    requires
        parts.len() > 0,
        forall|i: int| 0 <= i < parts.len() ==> plain(#[trigger] parts[i]),
    ensures
        pieces(joined(parts)) == parts,
    decreases parts.len(),
{
    let none = Seq::<char>::empty();
    if parts.len() == 1 {
        lemma_pieces_append(none, parts[0]);
        assert(none + parts[0] =~= parts[0]);
        assert(seq![none].drop_last().push(none + parts[0]) =~= parts);
    } else {
        let front = parts.drop_last();
        lemma_pieces_of_joined(front);
        let head = joined(front) + seq![','];
        assert(head.drop_last() =~= joined(front));
        assert(head.last() == ',');
        assert(pieces(head) == front.push(none));
        lemma_pieces_append(head, parts.last());
        assert(front.push(none).drop_last() =~= front);
        assert(none + parts.last() =~= parts.last());
        assert(front.push(parts.last()) =~= parts);
    }
}

/// The joined text is empty only where nothing was joined, as long as no
/// part is empty.
pub proof fn lemma_joined_empty(parts: Seq<Seq<char>>)
    requires
        forall|i: int| 0 <= i < parts.len() ==> (#[trigger] parts[i]).len() > 0,
    ensures
        joined(parts).len() == 0 <==> parts.len() == 0,
{
}

/// The character of a decimal digit.
pub open spec fn digit(d: nat) -> char
    recommends
        d < 10,
{
    if d == 0 {
        '0'
    } else if d == 1 {
        '1'
    } else if d == 2 {
        '2'
    } else if d == 3 {
        '3'
    } else if d == 4 {
        '4'
    } else if d == 5 {
        '5'
    } else if d == 6 {
        '6'
    } else if d == 7 {
        '7'
    } else if d == 8 {
        '8'
    } else {
        '9'
    }
}

/// A number in decimal, without sign or leading zeros.
pub open spec fn decimal(n: nat) -> Seq<char>
    decreases n,
{
    if n < 10 {
        seq![digit(n)]
    } else {
        decimal(n / 10).push(digit(n % 10))
    }
}

/// One decimal digit as a string slice.
fn digit_str(d: u8) -> (text: &'static str)
    requires
        d < 10,
    ensures
        text@ == seq![digit(d as nat)],
{
    proof {
        reveal_strlit("0");
        reveal_strlit("1");
        reveal_strlit("2");
        reveal_strlit("3");
        reveal_strlit("4");
        reveal_strlit("5");
        reveal_strlit("6");
        reveal_strlit("7");
        reveal_strlit("8");
        reveal_strlit("9");
    }
    let text = if d == 0 {
        "0"
    } else if d == 1 {
        "1"
    } else if d == 2 {
        "2"
    } else if d == 3 {
        "3"
    } else if d == 4 {
        "4"
    } else if d == 5 {
        "5"
    } else if d == 6 {
        "6"
    } else if d == 7 {
        "7"
    } else if d == 8 {
        "8"
    } else {
        "9"
    };
    assert(text@ =~= seq![digit(d as nat)]);
    text
}

/// Writes a byte-sized number in decimal.
pub fn decimal_u8(n: u8) -> (text: String)
    ensures
        text@ == decimal(n as nat),
{
    let mut out = String::new();
    if n >= 100 {
        out.append(digit_str(n / 100));
    }
    if n >= 10 {
        out.append(digit_str((n / 10) % 10));
    }
    out.append(digit_str(n % 10));
    proof {
        reveal_with_fuel(decimal, 3);
        assert(out@ =~= decimal(n as nat));
    }
    out
}

} // verus!
