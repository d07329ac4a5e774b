//! Text as the panels show it.

use vstd::prelude::*;
use vstd::string::*;

verus! {

/// Whether two texts are equal.
pub fn same_text(a: &str, b: &str) -> (r: bool)
    ensures
        r == (a@ == b@),
{
    a.to_owned() == b.to_owned()
}

/// One text behind another.
pub fn joined(a: &str, b: &str) -> (s: String)
    ensures
        s@ == a@ + b@,
{
    let mut s = a.to_owned();
    s.append(b);
    s
}

/// The character of a digit.
pub open spec fn digit(d: int) -> char {
    if d == 0 {
        '0'
    } else if d == 1 {
        '1'
    } else if d == 2 {
        '2'
    } else if d == 3 {
        '3'
    } else if d == 4 {
        '4'
    } else if d == 5 {
        '5'
    } else if d == 6 {
        '6'
    } else if d == 7 {
        '7'
    } else if d == 8 {
        '8'
    } else {
        '9'
    }
}

/// A number in decimal digits, without leading zeros.
pub open spec fn digits(n: nat) -> Seq<char>
    decreases n,
{
    if n < 10 {
        seq![digit(n as int)]
    } else {
        digits(n / 10).push(digit(n as int % 10))
    }
}

/// A whole number, with a minus sign where it is negative.
pub open spec fn numeral(n: int) -> Seq<char> {
    if n < 0 {
        seq!['-'] + digits((-n) as nat)
    } else {
        digits(n as nat)
    }
}

fn digit_char(d: u64) -> (c: char)
    requires
        d < 10,
    ensures
        c == digit(d as int),
{
    match d {
        0 => '0',
        1 => '1',
        2 => '2',
        3 => '3',
        4 => '4',
        5 => '5',
        6 => '6',
        7 => '7',
        8 => '8',
        _ => '9',
    }
}

/// Writes a number in decimal digits.
pub fn push_number(s: &mut String, n: u64)
    ensures
        final(s)@ == old(s)@ + digits(n as nat),
    decreases n,
{
    if n >= 10 {
        push_number(s, n / 10);
    }
    s.push(digit_char(n % 10));
    assert(s@ =~= old(s)@ + digits(n as nat));
}

/// Writes a whole number, with a minus sign where it is negative.
pub fn push_signed(s: &mut String, n: i64)
    ensures
        final(s)@ == old(s)@ + numeral(n as int),
{
    if n < 0 {
        s.push('-');
        let ghost mid = s@;
        let m: u64 = if n == i64::MIN {
            0x8000_0000_0000_0000
        } else {
            (-n) as u64
        };
        push_number(s, m);
        assert(s@ =~= old(s)@ + numeral(n as int));
    } else {
        push_number(s, n as u64);
    }
}

/// `n` blanks.
pub open spec fn blanks(n: int) -> Seq<char>
    decreases n,
{
    if n <= 0 {
        Seq::empty()
    } else {
        blanks(n - 1).push(' ')
    }
}

/// A text with blanks behind it up to `width` characters.
pub open spec fn padded(s: Seq<char>, width: int) -> Seq<char> {
    s + blanks(width - s.len())
}

/// The character of a hexadecimal digit.
pub open spec fn hex_digit(d: int) -> char {
    if d < 10 {
        digit(d)
    } else if d == 10 {
        'a'
    } else if d == 11 {
        'b'
    } else if d == 12 {
        'c'
    } else if d == 13 {
        'd'
    } else if d == 14 {
        'e'
    } else {
        'f'
    }
}

/// The lowest `k` hexadecimal digits of a number.
pub open spec fn hex_digits(n: nat, k: int) -> Seq<char>
    decreases k,
{
    if k <= 0 {
        Seq::empty()
    } else {
        hex_digits(n / 16, k - 1).push(hex_digit(n as int % 16))
    }
}

fn hex_char(d: u64) -> (c: char)
    requires
        d < 16,
    ensures
        c == hex_digit(d as int),
{
    match d {
        10 => 'a',
        11 => 'b',
        12 => 'c',
        13 => 'd',
        14 => 'e',
        15 => 'f',
        _ => digit_char(d),
    }
}

/// Writes the lowest `k` hexadecimal digits of a number.
pub fn push_hex(s: &mut String, n: u64, k: usize)
    ensures
        final(s)@ == old(s)@ + hex_digits(n as nat, k as int),
    decreases k,
{
    if k > 0 {
        push_hex(s, n / 16, k - 1);
        s.push(hex_char(n % 16));
    }
    assert(s@ =~= old(s)@ + hex_digits(n as nat, k as int));
}

/// A number that always has a sign.
pub open spec fn signed_numeral(n: int) -> Seq<char> {
    if n < 0 {
        numeral(n)
    } else {
        seq!['+'] + digits(n as nat)
    }
}

/// A text that is being written.
#[derive(Debug)]
pub struct Text {
    pub written: String,
}

impl Text {
    pub open spec fn view(&self) -> Seq<char> {
        self.written@
    }

    pub fn of(s: &str) -> (t: Text)
        ensures
            t@ == s@,
    {
        Text { written: s.to_owned() }
    }

    /// An empty text.
    pub fn blank() -> (t: Text)
        ensures
            t@ == Seq::<char>::empty(),
    {
        Text { written: String::new() }
    }

    /// Writes a text.
    pub fn with(self, s: &str) -> (t: Text)
        ensures
            t@ == self@ + s@,
    {
        let mut written = self.written;
        written.append(s);
        Text { written }
    }

    /// Writes a number.
    pub fn number(self, n: u64) -> (t: Text)
        ensures
            t@ == self@ + digits(n as nat),
    {
        let mut written = self.written;
        push_number(&mut written, n);
        Text { written }
    }

    /// Writes a whole number.
    pub fn signed(self, n: i64) -> (t: Text)
        ensures
            t@ == self@ + numeral(n as int),
    {
        let mut written = self.written;
        push_signed(&mut written, n);
        Text { written }
    }

    /// Writes the lowest `k` hexadecimal digits of a number.
    pub fn hex(self, n: u64, k: usize) -> (t: Text)
        ensures
            t@ == self@ + hex_digits(n as nat, k as int),
    {
        let mut written = self.written;
        push_hex(&mut written, n, k);
        Text { written }
    }

    /// Writes a whole number with its sign.
    pub fn plus(self, n: i64) -> (t: Text)
        ensures
            t@ == self@ + signed_numeral(n as int),
    {
        let mut written = self.written;
        if n >= 0 {
            written.push('+');
        }
        push_signed(&mut written, n);
        assert(written@ =~= self@ + signed_numeral(n as int));
        Text { written }
    }

    /// Writes a text and blanks behind it up to `width` characters.
    pub fn pad(self, s: &str, width: usize) -> (t: Text)
        ensures
            t@ == self@ + padded(s@, width as int),
    {
        let mut written = self.written;
        written.append(s);
        let n: usize = s.unicode_len();
        let mut i: usize = n;
        assert(written@ =~= self@ + (s@ + blanks(0)));
        while i < width
            invariant
                n == s@.len(),
                n <= i,
                i <= width || i == n,
                written@ == self@ + (s@ + blanks(i - n)),
            decreases width - i,
        {
            let ghost before = written@;
            written.push(' ');
            i += 1;
            assert(written@ =~= self@ + (s@ + blanks(i - n)));
        }
        assert(blanks(i - n) == blanks(width - n));
        Text { written }
    }

    pub fn done(self) -> (s: String)
        ensures
            s@ == self@,
    {
        self.written
    }
}

/// A text stands before another in the order of characters.
pub open spec fn text_before(a: Seq<char>, b: Seq<char>) -> bool
    decreases a.len(),
{
    if b.len() == 0 {
        false
    } else if a.len() == 0 {
        true
    } else if a[0] == b[0] {
        text_before(a.drop_first(), b.drop_first())
    } else {
        (a[0] as int) < (b[0] as int)
    }
}

/// Whether a text stands before another in the order of characters.
pub fn is_before(a: &str, b: &str) -> (r: bool)
    ensures
        r == text_before(a@, b@),
{
    let n: usize = a.unicode_len();
    let m: usize = b.unicode_len();
    let mut i: usize = 0;
    assert(a@.skip(0) =~= a@);
    assert(b@.skip(0) =~= b@);
    while i < n && i < m
        invariant
            n == a@.len(),
            m == b@.len(),
            i <= n,
            i <= m,
            text_before(a@, b@) == text_before(a@.skip(i as int), b@.skip(i as int)),
        decreases n - i,
    {
        let c: char = a.get_char(i);
        let d: char = b.get_char(i);
        if c != d {
            return (c as u32) < (d as u32);
        }
        assert(a@.skip(i as int).drop_first() =~= a@.skip(i as int + 1));
        assert(b@.skip(i as int).drop_first() =~= b@.skip(i as int + 1));
        i += 1;
    }
    i < m
}

/// The order of texts is strict, and any two different texts stand in one order or the other.
pub proof fn texts_are_ordered(a: Seq<char>, b: Seq<char>, c: Seq<char>)
    ensures
        !text_before(a, a),
        text_before(a, b) && text_before(b, c) ==> text_before(a, c),
        a != b ==> text_before(a, b) || text_before(b, a),
    decreases a.len() + b.len() + c.len(),
{
    if a.len() > 0 {
        if b.len() > 0 && c.len() > 0 {
            texts_are_ordered(a.drop_first(), b.drop_first(), c.drop_first());
        } else if b.len() > 0 {
            texts_are_ordered(a.drop_first(), b.drop_first(), c);
        } else if c.len() > 0 {
            texts_are_ordered(a.drop_first(), b, c.drop_first());
        } else {
            texts_are_ordered(a.drop_first(), b, c);
        }
    }
    if a != b && a.len() > 0 && b.len() > 0 && a[0] == b[0] {
        if a.drop_first() == b.drop_first() {
            assert(a =~= b) by {
                assert forall|i: int| 0 <= i < a.len() && i < b.len() implies a[i] == b[i] by {
                    if i > 0 {
                        assert(a.drop_first()[i - 1] == b.drop_first()[i - 1]);
                    }
                }
                assert(a.drop_first().len() == b.drop_first().len());
            }
        }
    }
    if a.len() == 0 && b.len() == 0 {
        assert(a =~= b);
    }
}

/// Different numbers have different digits.
pub proof fn digits_tell_numbers_apart(a: nat, b: nat)
    requires
        digits(a) == digits(b),
    ensures
        a == b,
    decreases a,
{
    let x = digits(a);
    digits_not_empty(a / 10);
    digits_not_empty(b / 10);
    if a >= 10 && b >= 10 {
        assert(x.drop_last() =~= digits(a / 10));
        assert(digits(b).drop_last() =~= digits(b / 10));
        digits_tell_numbers_apart(a / 10, b / 10);
        assert(x.last() == digit(a as int % 10));
        assert(digits(b).last() == digit(b as int % 10));
    } else if a < 10 && b < 10 {
        assert(x[0] == digit(a as int));
        assert(digits(b)[0] == digit(b as int));
    } else if a < 10 {
        assert(digits(b).len() >= 2);
    } else {
        assert(x.len() >= 2);
    }
}

proof fn digits_not_empty(n: nat)
    ensures
        digits(n).len() >= 1,
    decreases n,
{
    if n >= 10 {
        digits_not_empty(n / 10);
    }
}

/// Padding fills up with blanks and takes nothing away: the text stands first, and the whole is as
/// wide as asked for, or as the text where that is wider.
pub proof fn padding_only_adds_blanks(s: Seq<char>, width: int)
    ensures
        padded(s, width).len() == (if s.len() >= width {
            s.len() as int
        } else {
            width
        }),
        padded(s, width).take(s.len() as int) =~= s,
        forall|i: int|
            s.len() <= i < padded(s, width).len() ==> #[trigger] padded(s, width)[i] == ' ',
{
    blanks_are_blank(width - s.len());
}

proof fn blanks_are_blank(n: int)
    ensures
        n >= 0 ==> blanks(n).len() == n,
        n < 0 ==> blanks(n).len() == 0,
        forall|i: int| 0 <= i < blanks(n).len() ==> #[trigger] blanks(n)[i] == ' ',
    decreases n,
{
    if n > 0 {
        blanks_are_blank(n - 1);
    }
}

} // verus!
