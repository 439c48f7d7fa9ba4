//! Rendering of numbers and byte strings as text.

use vstd::prelude::*;

verus! {

/// The sixteen lowercase hexadecimal digits, in order.
pub open spec fn hex_digits() -> Seq<char> {
    seq!['0', '1', '2', '3', '4', '5', '6', '7', '8', '9', 'a', 'b', 'c', 'd', 'e', 'f']
}

/// The digit that stands for `d`, for `d < 16`.
pub open spec fn digit_char(d: nat) -> char {
    hex_digits()[d as int]
}

/// The decimal digits of `n`, most significant first, without leading zeros
/// (zero is the single digit `0`).
pub open spec fn decimal(n: nat) -> Seq<char>
    decreases n,
{
    if n < 10 {
        seq![digit_char(n)]
    } else {
        decimal(n / 10).push(digit_char(n % 10))
    }
}

/// Two lowercase hexadecimal digits per byte, high nibble first, no prefix.
pub open spec fn lower_hex(b: Seq<u8>) -> Seq<char>
    decreases b.len(),
{
    if b.len() == 0 {
        Seq::empty()
    } else {
        let last = b.last();
        lower_hex(b.drop_last()) + seq![digit_char(last as nat / 16), digit_char(last as nat % 16)]
    }
}

/// The one-character string of digit `d`.
fn digit_str(d: u8) -> (r: &'static str)
    requires
        d < 16,
    ensures
        r@ == seq![digit_char(d as nat)],
{
    proof {
        reveal_strlit("0");
        reveal_strlit("1");
        reveal_strlit("2");
        reveal_strlit("3");
        reveal_strlit("4");
        reveal_strlit("5");
        reveal_strlit("6");
        reveal_strlit("7");
        reveal_strlit("8");
        reveal_strlit("9");
        reveal_strlit("a");
        reveal_strlit("b");
        reveal_strlit("c");
        reveal_strlit("d");
        reveal_strlit("e");
        reveal_strlit("f");
    }
    let r = match d {
        0 => "0",
        1 => "1",
        2 => "2",
        3 => "3",
        4 => "4",
        5 => "5",
        6 => "6",
        7 => "7",
        8 => "8",
        9 => "9",
        10 => "a",
        11 => "b",
        12 => "c",
        13 => "d",
        14 => "e",
        _ => "f",
    };
    assert(r@ =~= seq![digit_char(d as nat)]);
    r
}

/// Appends the decimal digits of `n` to `out`.
pub fn push_decimal(out: &mut String, n: u64)
    ensures
        final(out)@ == old(out)@ + decimal(n as nat),
    decreases n,
{
    if n >= 10 {
        push_decimal(out, n / 10);
    }
    let d = digit_str((n % 10) as u8);
    out.append(d);
    assert(old(out)@ + decimal(n as nat) =~= final(out)@);
}

/// The decimal digits of `n`.
pub fn u64_decimal(n: u64) -> (r: String)
    ensures
        r@ == decimal(n as nat),
{
    let mut s = String::new();
    push_decimal(&mut s, n);
    assert(s@ =~= decimal(n as nat));
    s
}

/// The value of a lowercase hexadecimal digit.
pub open spec fn digit_value(c: char) -> nat {
    choose|d: nat| d < 16 && digit_char(d) == c
}

/// The number whose decimal digits are `s`.
pub open spec fn parse_decimal(s: Seq<char>) -> nat
    decreases s.len(),
{
    if s.len() == 0 {
        0
    } else {
        parse_decimal(s.drop_last()) * 10 + digit_value(s.last())
    }
}

/// The bytes whose lowercase hexadecimal digits are `s`, two per byte.
pub open spec fn parse_hex(s: Seq<char>) -> Seq<u8>
    decreases s.len(),
{
    if s.len() < 2 {
        Seq::empty()
    } else {
        parse_hex(s.subrange(0, s.len() - 2)).push(
            (digit_value(s[s.len() - 2]) * 16 + digit_value(s[s.len() - 1])) as u8,
        )
    }
}

pub proof fn lemma_digit_value(d: nat)
    requires
        d < 16,
    ensures
        digit_value(digit_char(d)) == d,
{
    let c = digit_char(d);
    assert(d < 16 && digit_char(d) == c);
    let e = digit_value(c);
    assert(e < 16 && digit_char(e) == c);
}

/// Decimal text leads with a digit below ten and is never empty.
pub proof fn lemma_decimal_shape(n: nat)
    ensures
        decimal(n).len() >= 1,
        exists|d: nat| d < 10 && decimal(n)[0] == digit_char(d),
    decreases n,
{
    if n < 10 {
        assert(decimal(n)[0] == digit_char(n));
    } else {
        lemma_decimal_shape(n / 10);
        let d = choose|d: nat| d < 10 && decimal(n / 10)[0] == digit_char(d);
        assert(decimal(n)[0] == digit_char(d));
    }
}

/// Decimal text reads back as the number it renders.
pub proof fn lemma_decimal_round_trip(n: nat)
    ensures
        parse_decimal(decimal(n)) == n,
    decreases n,
{
    if n < 10 {
        lemma_digit_value(n);
        assert(decimal(n).drop_last() =~= Seq::<char>::empty());
        assert(decimal(n).last() == digit_char(n));
        assert(parse_decimal(Seq::<char>::empty()) == 0);
    } else {
        lemma_decimal_round_trip(n / 10);
        lemma_digit_value(n % 10);
        assert(decimal(n).drop_last() =~= decimal(n / 10));
        assert(decimal(n).last() == digit_char(n % 10));
        assert(parse_decimal(decimal(n)) == parse_decimal(decimal(n / 10)) * 10 + digit_value(
            digit_char(n % 10),
        ));
        assert((n / 10) * 10 + n % 10 == n);
    }
}

/// Hexadecimal text has two digits per byte.
pub proof fn lemma_lower_hex_len(b: Seq<u8>)
    ensures
        lower_hex(b).len() == 2 * b.len(),
    decreases b.len(),
{
    if b.len() > 0 {
        lemma_lower_hex_len(b.drop_last());
    }
}

/// Hexadecimal text reads back as the bytes it renders.
pub proof fn lemma_hex_round_trip(b: Seq<u8>)
    ensures
        parse_hex(lower_hex(b)) == b,
    decreases b.len(),
{
    if b.len() > 0 {
        let prev = b.drop_last();
        let h = lower_hex(b);
        lemma_lower_hex_len(b);
        lemma_lower_hex_len(prev);
        lemma_hex_round_trip(prev);
        assert(h.subrange(0, h.len() - 2) =~= lower_hex(prev));
        let last = b.last() as nat;
        lemma_digit_value(last / 16);
        lemma_digit_value(last % 16);
        assert(h[h.len() - 2] == digit_char(last / 16));
        assert(h[h.len() - 1] == digit_char(last % 16));
        assert(parse_hex(h) =~= b);
    } else {
        assert(lower_hex(b).len() == 0);
        assert(b =~= Seq::<u8>::empty());
    }
}

/// The views of a sequence of strings.
pub open spec fn string_views(v: Seq<String>) -> Seq<Seq<char>> {
    v.map_values(|s: String| s@)
}

/// The pieces `fs` with `sep` between each two neighbours.
pub open spec fn join(fs: Seq<Seq<char>>, sep: Seq<char>) -> Seq<char>
    decreases fs.len(),
{
    if fs.len() == 0 {
        Seq::empty()
    } else if fs.len() == 1 {
        fs[0]
    } else {
        join(fs.drop_last(), sep) + sep + fs.last()
    }
}

/// Joins the strings of `cells` with `sep` between each two neighbours.
pub fn join_cells(cells: &Vec<String>, sep: &str) -> (r: String)
    ensures
        r@ == join(string_views(cells@), sep@),
{
    let mut s = String::new();
    let mut i: usize = 0;
    while i < cells.len()
        invariant
            i <= cells@.len(),
            s@ == join(string_views(cells@.take(i as int)), sep@),
        decreases cells@.len() - i,
    {
        if i > 0 {
            s.append(sep);
        }
        s.append(cells[i].as_str());
        proof {
            let prev = string_views(cells@.take(i as int));
            let next = string_views(cells@.take(i as int + 1));
            assert(next.drop_last() =~= prev);
            assert(next.last() == cells@[i as int]@);
            if i == 0 {
                assert(s@ =~= join(next, sep@));
            }
        }
        i = i + 1;
    }
    assert(cells@.take(cells@.len() as int) =~= cells@);
    s
}

} // verus!
