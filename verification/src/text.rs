//! Verified text helpers for the command protocol and the disassembler:
//! decimal and hexadecimal rendering, decimal and hexadecimal parsing, and
//! splitting a command line into space-separated tokens.

use vstd::prelude::*;
use vstd::string::*;

verus! {

/// The lowercase digit characters, also used for values below ten in
/// decimal renderings.
pub open spec fn digit_char(d: int) -> char {
    if d == 0 {
        '0'
    } else if d == 1 {
        '1'
    } else if d == 2 {
        '2'
    } else if d == 3 {
        '3'
    } else if d == 4 {
        '4'
    } else if d == 5 {
        '5'
    } else if d == 6 {
        '6'
    } else if d == 7 {
        '7'
    } else if d == 8 {
        '8'
    } else if d == 9 {
        '9'
    } else if d == 10 {
        'a'
    } else if d == 11 {
        'b'
    } else if d == 12 {
        'c'
    } else if d == 13 {
        'd'
    } else if d == 14 {
        'e'
    } else {
        'f'
    }
}

/// Minimal decimal rendering, most significant digit first.
pub open spec fn dec_chars(n: nat) -> Seq<char>
    decreases n,
{
    if n < 10 {
        seq![digit_char(n as int)]
    } else {
        dec_chars(n / 10) + seq![digit_char((n % 10) as int)]
    }
}

/// Minimal lowercase hexadecimal rendering, most significant digit first.
pub open spec fn hex_chars(n: nat) -> Seq<char>
    decreases n,
{
    if n < 16 {
        seq![digit_char(n as int)]
    } else {
        hex_chars(n / 16) + seq![digit_char((n % 16) as int)]
    }
}

/// `0x` plus the hexadecimal rendering zero-padded to at least four digits,
/// the shape register values and addresses are reported in.
pub open spec fn hex_0x4(n: nat) -> Seq<char> {
    "0x"@ + Seq::new(if hex_chars(n).len() >= 4 {
        0
    } else {
        (4 - hex_chars(n).len()) as nat
    }, |i: int| '0') + hex_chars(n)
}

/// `0x` plus the minimal hexadecimal rendering, the shape single values
/// are reported in.
pub open spec fn hex_0x(n: nat) -> Seq<char> {
    "0x"@ + hex_chars(n)
}

/// The hexadecimal rendering space-padded on the left to at least four
/// columns, the shape disassembly operands are reported in.
pub open spec fn hex_sp4(n: nat) -> Seq<char> {
    Seq::new(if hex_chars(n).len() >= 4 {
        0
    } else {
        (4 - hex_chars(n).len()) as nat
    }, |i: int| ' ') + hex_chars(n)
}

/// One digit as a string slice.
fn digit_str(d: usize) -> (r: &'static str)
    requires
        d < 16,
    ensures
        r@ =~= seq![digit_char(d as int)],
{
    proof {
        reveal_strlit("0");
        reveal_strlit("1");
        reveal_strlit("2");
        reveal_strlit("3");
        reveal_strlit("4");
        reveal_strlit("5");
        reveal_strlit("6");
        reveal_strlit("7");
        reveal_strlit("8");
        reveal_strlit("9");
        reveal_strlit("a");
        reveal_strlit("b");
        reveal_strlit("c");
        reveal_strlit("d");
        reveal_strlit("e");
        reveal_strlit("f");
    }
    if d == 0 {
        "0"
    } else if d == 1 {
        "1"
    } else if d == 2 {
        "2"
    } else if d == 3 {
        "3"
    } else if d == 4 {
        "4"
    } else if d == 5 {
        "5"
    } else if d == 6 {
        "6"
    } else if d == 7 {
        "7"
    } else if d == 8 {
        "8"
    } else if d == 9 {
        "9"
    } else if d == 10 {
        "a"
    } else if d == 11 {
        "b"
    } else if d == 12 {
        "c"
    } else if d == 13 {
        "d"
    } else if d == 14 {
        "e"
    } else {
        "f"
    }
}

/// Appends the minimal decimal rendering of `n`.
pub fn push_dec(s: &mut String, n: u64)
    ensures
        final(s)@ == old(s)@ + dec_chars(n as nat),
    decreases n,
{
    if n < 10 {
        s.append(digit_str(n as usize));
    } else {
        push_dec(s, n / 10);
        s.append(digit_str((n % 10) as usize));
        proof {
            assert(s@ =~= old(s)@ + dec_chars(n as nat));
        }
    }
}

/// Appends the minimal lowercase hexadecimal rendering of `n`.
pub fn push_hex(s: &mut String, n: u16)
    ensures
        final(s)@ == old(s)@ + hex_chars(n as nat),
    decreases n,
{
    if n < 16 {
        s.append(digit_str(n as usize));
    } else {
        push_hex(s, n / 16);
        s.append(digit_str((n % 16) as usize));
        proof {
            assert(s@ =~= old(s)@ + hex_chars(n as nat));
        }
    }
}

/// How many hexadecimal digits the minimal rendering of `n` has (a 16-bit
/// value needs at most four).
proof fn lemma_hex_chars_len(n: nat)
    ensures
        hex_chars(n).len() == if n < 16 {
            1nat
        } else if n < 256 {
            2nat
        } else if n < 4096 {
            3nat
        } else if n < 65536 {
            4nat
        } else {
            hex_chars(n).len()
        },
        n >= 65536 ==> hex_chars(n).len() >= 4,
    decreases n,
{
    if n >= 16 {
        lemma_hex_chars_len(n / 16);
    }
}

/// Appends `0x` plus the zero-padded four-column hexadecimal rendering.
pub fn push_hex_0x4(s: &mut String, n: u16)
    ensures
        final(s)@ == old(s)@ + hex_0x4(n as nat),
{
    proof {
        reveal_strlit("0x");
        reveal_strlit("0");
        reveal_strlit("00");
        reveal_strlit("000");
        lemma_hex_chars_len(n as nat);
    }
    s.append("0x");
    if n < 0x10 {
        s.append("000");
    } else if n < 0x100 {
        s.append("00");
    } else if n < 0x1000 {
        s.append("0");
    }
    push_hex(s, n);
    proof {
        assert(s@ =~= old(s)@ + hex_0x4(n as nat));
    }
}

/// Appends `0x` plus the minimal hexadecimal rendering.
pub fn push_hex_0x(s: &mut String, n: u16)
    ensures
        final(s)@ == old(s)@ + hex_0x(n as nat),
{
    s.append("0x");
    push_hex(s, n);
    proof {
        assert(s@ =~= old(s)@ + hex_0x(n as nat));
    }
}

/// Appends the space-padded four-column hexadecimal rendering.
pub fn push_hex_sp4(s: &mut String, n: u16)
    ensures
        final(s)@ == old(s)@ + hex_sp4(n as nat),
{
    proof {
        reveal_strlit(" ");
        reveal_strlit("  ");
        reveal_strlit("   ");
        lemma_hex_chars_len(n as nat);
    }
    if n < 0x10 {
        s.append("   ");
    } else if n < 0x100 {
        s.append("  ");
    } else if n < 0x1000 {
        s.append(" ");
    }
    push_hex(s, n);
    proof {
        assert(s@ =~= old(s)@ + hex_sp4(n as nat));
    }
}

/// A decimal digit character.
pub open spec fn is_dec_digit(c: char) -> bool {
    48 <= c as int <= 57
}

/// The value of a decimal digit character.
pub open spec fn dec_digit_val(c: char) -> int {
    c as int - 48
}

/// A nonempty all-digit string: what decimal parsing accepts.
pub open spec fn is_dec_string(cs: Seq<char>) -> bool {
    cs.len() > 0 && forall|i: int| 0 <= i < cs.len() ==> is_dec_digit(#[trigger] cs[i])
}

/// The numeric value of a digit string.
pub open spec fn dec_val(cs: Seq<char>) -> int
    decreases cs.len(),
{
    if cs.len() == 0 {
        0
    } else {
        dec_val(cs.drop_last()) * 10 + dec_digit_val(cs.last())
    }
}

/// A hexadecimal digit character, either case.
pub open spec fn is_hex_digit(c: char) -> bool {
    48 <= c as int <= 57 || 97 <= c as int <= 102 || 65 <= c as int <= 70
}

/// The value of a hexadecimal digit character.
pub open spec fn hex_digit_val(c: char) -> int {
    if 48 <= c as int <= 57 {
        c as int - 48
    } else if 97 <= c as int <= 102 {
        c as int - 87
    } else {
        c as int - 55
    }
}

/// A nonempty all-hex-digit string: what hexadecimal parsing accepts.
pub open spec fn is_hex_string(cs: Seq<char>) -> bool {
    cs.len() > 0 && forall|i: int| 0 <= i < cs.len() ==> is_hex_digit(#[trigger] cs[i])
}

/// The numeric value of a hex-digit string.
pub open spec fn hex_val(cs: Seq<char>) -> int
    decreases cs.len(),
{
    if cs.len() == 0 {
        0
    } else {
        hex_val(cs.drop_last()) * 16 + hex_digit_val(cs.last())
    }
}

/// Every prefix of a digit string is worth no more than the whole.
proof fn lemma_dec_val_prefix(cs: Seq<char>, i: int)
    requires
        is_dec_string(cs),
        0 <= i <= cs.len(),
    ensures
        0 <= dec_val(cs.take(i)) <= dec_val(cs),
    decreases cs.len() - i,
{
    if i == cs.len() {
        assert(cs.take(i) =~= cs);
        lemma_dec_val_nonneg(cs);
    } else {
        lemma_dec_val_prefix(cs, i + 1);
        assert(cs.take(i + 1).drop_last() =~= cs.take(i));
        assert(dec_val(cs.take(i + 1)) == dec_val(cs.take(i)) * 10 + dec_digit_val(cs[i]));
        lemma_dec_val_nonneg(cs.take(i));
    }
}

proof fn lemma_dec_val_nonneg(cs: Seq<char>)
    requires
        forall|i: int| 0 <= i < cs.len() ==> is_dec_digit(#[trigger] cs[i]),
    ensures
        dec_val(cs) >= 0,
    decreases cs.len(),
{
    if cs.len() > 0 {
        lemma_dec_val_nonneg(cs.drop_last());
    }
}

/// Every prefix of a hex-digit string is worth no more than the whole.
proof fn lemma_hex_val_prefix(cs: Seq<char>, i: int)
    requires
        is_hex_string(cs),
        0 <= i <= cs.len(),
    ensures
        0 <= hex_val(cs.take(i)) <= hex_val(cs),
    decreases cs.len() - i,
{
    if i == cs.len() {
        assert(cs.take(i) =~= cs);
        lemma_hex_val_nonneg(cs);
    } else {
        lemma_hex_val_prefix(cs, i + 1);
        assert(cs.take(i + 1).drop_last() =~= cs.take(i));
        assert(hex_val(cs.take(i + 1)) == hex_val(cs.take(i)) * 16 + hex_digit_val(cs[i]));
        lemma_hex_val_nonneg(cs.take(i));
    }
}

proof fn lemma_hex_val_nonneg(cs: Seq<char>)
    requires
        forall|i: int| 0 <= i < cs.len() ==> is_hex_digit(#[trigger] cs[i]),
    ensures
        hex_val(cs) >= 0,
    decreases cs.len(),
{
    if cs.len() > 0 {
        lemma_hex_val_nonneg(cs.drop_last());
    }
}

/// Parses an unsigned decimal number.  Succeeds exactly on nonempty
/// all-digit strings whose value fits in 16 bits.
pub fn parse_dec_u16(s: &str) -> (r: Option<u16>)
    ensures
        r is Some <==> is_dec_string(s@) && dec_val(s@) <= 0xffff,
        r matches Some(v) ==> v == dec_val(s@),
{
    let n = s.unicode_len();
    if n == 0 {
        return None;
    }
    let mut acc: u32 = 0;
    let mut i: usize = 0;
    while i < n
        invariant
            n == s@.len(),
            0 < n,
            0 <= i <= n,
            forall|j: int| 0 <= j < i ==> is_dec_digit(#[trigger] s@[j]),
            acc == dec_val(s@.take(i as int)),
            acc <= 0xffff,
        decreases n - i,
    {
        let c = s.get_char(i);
        let cv = c as u32;
        if !(48 <= cv && cv <= 57) {
            return None;
        }
        let d = cv - 48;
        let next = acc * 10 + d;
        proof {
            assert(s@.take(i + 1).drop_last() =~= s@.take(i as int));
        }
        if next > 0xffff {
            proof {
                if is_dec_string(s@) {
                    lemma_dec_val_prefix(s@, i + 1);
                }
            }
            return None;
        }
        acc = next;
        i = i + 1;
    }
    proof {
        assert(s@.take(n as int) =~= s@);
    }
    Some(acc as u16)
}

/// Parses an unsigned hexadecimal number (no `0x` prefix, either case).
/// Succeeds exactly on nonempty all-hex-digit strings whose value fits in
/// 16 bits.
pub fn parse_hex_u16(s: &str) -> (r: Option<u16>)
    ensures
        r is Some <==> is_hex_string(s@) && hex_val(s@) <= 0xffff,
        r matches Some(v) ==> v == hex_val(s@),
{
    let n = s.unicode_len();
    if n == 0 {
        return None;
    }
    let mut acc: u32 = 0;
    let mut i: usize = 0;
    while i < n
        invariant
            n == s@.len(),
            0 < n,
            0 <= i <= n,
            forall|j: int| 0 <= j < i ==> is_hex_digit(#[trigger] s@[j]),
            acc == hex_val(s@.take(i as int)),
            acc <= 0xffff,
        decreases n - i,
    {
        let c = s.get_char(i);
        let cv = c as u32;
        let d: u32 = if 48 <= cv && cv <= 57 {
            cv - 48
        } else if 97 <= cv && cv <= 102 {
            cv - 87
        } else if 65 <= cv && cv <= 70 {
            cv - 55
        } else {
            return None;
        };
        let next = acc * 16 + d;
        proof {
            assert(s@.take(i + 1).drop_last() =~= s@.take(i as int));
        }
        if next > 0xffff {
            proof {
                if is_hex_string(s@) {
                    lemma_hex_val_prefix(s@, i + 1);
                }
            }
            return None;
        }
        acc = next;
        i = i + 1;
    }
    proof {
        assert(s@.take(n as int) =~= s@);
    }
    Some(acc as u16)
}

/// The index of the first space at or after `i`, or the length if none.
pub open spec fn find_space(cs: Seq<char>, i: int) -> int
    decreases cs.len() - i,
{
    if i < 0 || i >= cs.len() {
        cs.len() as int
    } else if cs[i] == ' ' {
        i
    } else {
        find_space(cs, i + 1)
    }
}

/// Splitting on every single space, empty tokens preserved: the empty line
/// yields one empty token, and adjacent spaces yield empty tokens between
/// them.
pub open spec fn tokens_of(cs: Seq<char>) -> Seq<Seq<char>>
    decreases cs.len(),
    via tokens_of_decreases
{
    let j = find_space(cs, 0);
    if j >= cs.len() {
        seq![cs]
    } else {
        seq![cs.take(j)] + tokens_of(cs.skip(j + 1))
    }
}

proof fn lemma_find_space_bounds(cs: Seq<char>, i: int)
    requires
        0 <= i,
    ensures
        0 <= find_space(cs, i) <= cs.len(),
    decreases cs.len() - i,
{
    if i < cs.len() && cs[i] != ' ' {
        lemma_find_space_bounds(cs, i + 1);
    }
}

#[via_fn]
proof fn tokens_of_decreases(cs: Seq<char>) {
    lemma_find_space_bounds(cs, 0);
}

/// `find_space` finds exactly the first space.
proof fn lemma_find_space_at(cs: Seq<char>, j: int)
    requires
        0 <= j <= cs.len(),
        forall|k: int| 0 <= k < j ==> cs[k] != ' ',
        j < cs.len() ==> cs[j] == ' ',
    ensures
        find_space(cs, 0) == j,
{
    lemma_find_space_from(cs, 0, j);
}

proof fn lemma_find_space_from(cs: Seq<char>, i: int, j: int)
    requires
        0 <= i <= j <= cs.len(),
        forall|k: int| i <= k < j ==> cs[k] != ' ',
        j < cs.len() ==> cs[j] == ' ',
    ensures
        find_space(cs, i) == j,
    decreases j - i,
{
    if i < j {
        lemma_find_space_from(cs, i + 1, j);
    }
}

/// Splits a command line on spaces into its tokens.
pub fn split_spaces(s: &str) -> (toks: Vec<String>)
    ensures
        toks@.len() == tokens_of(s@).len(),
        forall|i: int| 0 <= i < toks@.len() ==> #[trigger] toks@[i]@ == tokens_of(s@)[i],
{
    let n = s.unicode_len();
    let mut toks: Vec<String> = Vec::new();
    proof {
        assert(s@.skip(0) =~= s@);
        assert(toks@.map_values(|t: String| t@) =~= Seq::<Seq<char>>::empty());
    }
    let mut start: usize = 0;
    let mut i: usize = 0;
    while i < n
        invariant
            n == s@.len(),
            0 <= start <= i <= n,
            forall|k: int| start <= k < i ==> s@[k] != ' ',
            tokens_of(s@) =~= toks@.map_values(|t: String| t@) + tokens_of(s@.skip(start as int)),
        decreases n - i,
    {
        let c = s.get_char(i);
        if c == ' ' {
            let tok = s.substring_char(start, i);
            let tokstr = String::from_str(tok);
            proof {
                let rest = s@.skip(start as int);
                lemma_find_space_at(rest, i - start);
                assert(rest.take(i - start) =~= s@.subrange(start as int, i as int));
                assert(rest.skip(i - start + 1) =~= s@.skip(i + 1));
                let mapped = toks@.map_values(|t: String| t@);
                let tok_view = s@.subrange(start as int, i as int);
                assert(tokens_of(rest) == seq![tok_view] + tokens_of(s@.skip(i + 1)));
                assert(toks@.push(tokstr).map_values(|t: String| t@) =~= mapped + seq![tokstr@]);
            }
            toks.push(tokstr);
            start = i + 1;
        }
        i = i + 1;
    }
    let tok = s.substring_char(start, n);
    let tokstr = String::from_str(tok);
    proof {
        let rest = s@.skip(start as int);
        lemma_find_space_at(rest, n - start);
        assert(rest.take(n - start) =~= rest);
        assert(rest =~= s@.subrange(start as int, n as int));
        assert(tokens_of(rest) == seq![rest]);
        assert(toks@.push(tokstr).map_values(|t: String| t@) =~= toks@.map_values(
            |t: String| t@,
        ) + seq![tokstr@]);
    }
    toks.push(tokstr);
    proof {
        assert(toks@.map_values(|t: String| t@) =~= tokens_of(s@));
        assert forall|i: int| 0 <= i < toks@.len() implies #[trigger] toks@[i]@ == tokens_of(
            s@,
        )[i] by {
            assert(toks@.map_values(|t: String| t@)[i] == toks@[i]@);
        }
    }
    toks
}

/// Whether a token equals a literal.
pub fn tok_is(t: &String, lit: &str) -> (r: bool)
    ensures
        r == (t@ == lit@),
{
    let l = String::from_str(lit);
    t.eq(&l)
}

} // verus!
