//! Reading what a player typed: blanks, words and numbers.

use vstd::prelude::*;
use vstd::string::*;
use crate::text::{digits, numeral};

verus! {

/// The characters that count as white space.
pub open spec fn is_space(c: char) -> bool {
    let n = c as int;
    ||| 0x9 <= n <= 0xd
    ||| n == 0x20
    ||| n == 0x85
    ||| n == 0xa0
    ||| n == 0x1680
    ||| 0x2000 <= n <= 0x200a
    ||| n == 0x2028
    ||| n == 0x2029
    ||| n == 0x202f
    ||| n == 0x205f
    ||| n == 0x3000
}

pub fn is_blank(c: char) -> (b: bool)
    ensures
        b == is_space(c),
{
    let n: u32 = c as u32;
    (0x9 <= n && n <= 0xd) || n == 0x20 || n == 0x85 || n == 0xa0 || n == 0x1680 || (0x2000 <= n && n
        <= 0x200a) || n == 0x2028 || n == 0x2029 || n == 0x202f || n == 0x205f || n == 0x3000
}

/// A text without the white space before it.
pub open spec fn without_leading(s: Seq<char>) -> Seq<char>
    decreases s.len(),
{
    if s.len() > 0 && is_space(s[0]) {
        without_leading(s.drop_first())
    } else {
        s
    }
}

/// A text without the white space behind it.
pub open spec fn without_trailing(s: Seq<char>) -> Seq<char>
    decreases s.len(),
{
    if s.len() > 0 && is_space(s.last()) {
        without_trailing(s.drop_last())
    } else {
        s
    }
}

/// A text without the white space around it.
pub open spec fn trimmed(s: Seq<char>) -> Seq<char> {
    without_trailing(without_leading(s))
}

/// A text without the white space around it.
pub fn trim(s: &str) -> (t: String)
    ensures
        t@ == trimmed(s@),
{
    let n: usize = s.unicode_len();
    let mut a: usize = 0;
    assert(s@.subrange(0, n as int) =~= s@);
    while a < n && is_blank(s.get_char(a))
        invariant
            n == s@.len(),
            a <= n,
            without_leading(s@) == without_leading(s@.subrange(a as int, n as int)),
        decreases n - a,
    {
        assert(s@.subrange(a as int, n as int).drop_first() =~= s@.subrange(
            a as int + 1,
            n as int,
        ));
        a += 1;
    }
    let mut b: usize = n;
    assert(without_leading(s@) == s@.subrange(a as int, n as int)) by {
        if a < n {
            assert(s@.subrange(a as int, n as int)[0] == s@[a as int]);
        }
    }
    while a < b && is_blank(s.get_char(b - 1))
        invariant
            n == s@.len(),
            a <= b <= n,
            trimmed(s@) == without_trailing(s@.subrange(a as int, b as int)),
        decreases b,
    {
        assert(s@.subrange(a as int, b as int).last() == s@[b - 1]);
        assert(s@.subrange(a as int, b as int).drop_last() =~= s@.subrange(a as int, b - 1));
        b -= 1;
    }
    assert(trimmed(s@) == s@.subrange(a as int, b as int)) by {
        if a < b {
            assert(s@.subrange(a as int, b as int).last() == s@[b - 1]);
        }
    }
    let mut t = String::new();
    let mut i: usize = a;
    while i < b
        invariant
            n == s@.len(),
            a <= i <= b <= n,
            t@ == s@.subrange(a as int, i as int),
        decreases b - i,
    {
        t.push(s.get_char(i));
        i += 1;
        assert(t@ =~= s@.subrange(a as int, i as int));
    }
    t
}

/// A digit.
pub open spec fn is_digit(c: char) -> bool {
    0x30 <= c as int <= 0x39
}

pub open spec fn all_digits(s: Seq<char>) -> bool {
    forall|i: int| 0 <= i < s.len() ==> is_digit(#[trigger] s[i])
}

/// The number that digits stand for.
pub open spec fn value(s: Seq<char>) -> int
    decreases s.len(),
{
    if s.len() == 0 {
        0
    } else {
        value(s.drop_last()) * 10 + (s.last() as int - 0x30)
    }
}

/// The number that a text of at least one digit stands for.
pub open spec fn digits_value(s: Seq<char>) -> Option<int> {
    if s.len() > 0 && all_digits(s) {
        Some(value(s))
    } else {
        None
    }
}

/// The whole number that a text stands for, with or without a sign.
pub open spec fn signed_value(s: Seq<char>) -> Option<int> {
    if s.len() > 0 && s[0] == '-' {
        match digits_value(s.drop_first()) {
            Some(v) => Some(-v),
            None => None,
        }
    } else if s.len() > 0 && s[0] == '+' {
        digits_value(s.drop_first())
    } else {
        digits_value(s)
    }
}

/// The number without a minus sign that a text stands for.
pub open spec fn unsigned_value(s: Seq<char>) -> Option<int> {
    if s.len() > 0 && s[0] == '+' {
        digits_value(s.drop_first())
    } else {
        digits_value(s)
    }
}

proof fn value_grows(s: Seq<char>, n: int)
    requires
        all_digits(s),
        0 <= n <= s.len(),
    ensures
        0 <= value(s.take(n)) <= value(s),
    decreases s.len() - n + s.len(),
{
    if n < s.len() {
        value_grows(s, n + 1);
        assert(s.take(n + 1).drop_last() =~= s.take(n));
        assert(is_digit(s[n]));
        value_is_not_negative(s.take(n));
    } else {
        assert(s.take(n) =~= s);
        value_is_not_negative(s);
    }
}

proof fn value_is_not_negative(s: Seq<char>)
    requires
        all_digits(s),
    ensures
        value(s) >= 0,
    decreases s.len(),
{
    if s.len() > 0 {
        assert(is_digit(s[s.len() - 1]));
        value_is_not_negative(s.drop_last());
    }
}

/// Reads the digits from the place `from` on, as far as they fit in sixty-four bits.
fn read_digits(s: &str, from: usize) -> (r: Option<u64>)
    requires
        from <= s@.len(),
    ensures
        match r {
            Some(v) => digits_value(s@.skip(from as int)) == Some(v as int),
            None => match digits_value(s@.skip(from as int)) {
                Some(v) => v > u64::MAX,
                None => true,
            },
        },
{
    let n: usize = s.unicode_len();
    let ghost body = s@.skip(from as int);
    if from == n {
        return None;
    }
    let mut v: u64 = 0;
    let mut i: usize = from;
    assert(body.take(0) =~= Seq::<char>::empty());
    while i < n
        invariant
            n == s@.len(),
            from <= i <= n,
            body == s@.skip(from as int),
            forall|k: int| 0 <= k < i - from ==> is_digit(#[trigger] body[k]),
            v == value(body.take(i - from)),
        decreases n - i,
    {
        let c: u32 = s.get_char(i) as u32;
        assert(body[i - from] == s@[i as int]);
        if !(0x30 <= c && c <= 0x39) {
            assert(!is_digit(body[i - from]));
            return None;
        }
        let d: u64 = (c - 0x30) as u64;
        assert(body.take(i - from + 1).drop_last() =~= body.take(i - from));
        assert(value(body.take(i - from + 1)) == v * 10 + d);
        if v > u64::MAX / 10 || v * 10 > u64::MAX - d {
            proof {
                if all_digits(body) {
                    value_grows(body, i - from + 1);
                }
            }
            return None;
        }
        v = v * 10 + d;
        i += 1;
    }
    assert(body.take(n - from) =~= body);
    Some(v)
}

/// The number of sixty-four bits that a text stands for.
pub open spec fn u64_of(s: Seq<char>) -> Option<u64> {
    match unsigned_value(s) {
        Some(v) => if v <= u64::MAX {
            Some(v as u64)
        } else {
            None
        },
        None => None,
    }
}

/// Reads a number of sixty-four bits.
pub fn read_u64(s: &str) -> (r: Option<u64>)
    ensures
        r == u64_of(s@),
{
    let n: usize = s.unicode_len();
    if n > 0 && s.get_char(0) == '+' {
        assert(s@.skip(1) =~= s@.drop_first());
        read_digits(s, 1)
    } else {
        assert(s@.skip(0) =~= s@);
        read_digits(s, 0)
    }
}

/// The signed number of thirty-two bits that a text stands for.
pub open spec fn i32_of(s: Seq<char>) -> Option<i32> {
    match signed_value(s) {
        Some(v) => if i32::MIN <= v <= i32::MAX {
            Some(v as i32)
        } else {
            None
        },
        None => None,
    }
}

/// Reads a signed number of thirty-two bits.
pub fn read_i32(s: &str) -> (r: Option<i32>)
    ensures
        r == i32_of(s@),
{
    let n: usize = s.unicode_len();
    if n > 0 && s.get_char(0) == '-' {
        assert(s@.skip(1) =~= s@.drop_first());
        match read_digits(s, 1) {
            Some(v) => {
                if v <= 0x8000_0000 {
                    Some((-(v as i64)) as i32)
                } else {
                    None
                }
            },
            None => None,
        }
    } else {
        let from: usize = if n > 0 && s.get_char(0) == '+' {
            1
        } else {
            0
        };
        assert(s@.skip(1) =~= s@.drop_first() || n == 0);
        assert(s@.skip(0) =~= s@);
        match read_digits(s, from) {
            Some(v) => {
                if v <= 0x7fff_ffff {
                    Some(v as i32)
                } else {
                    None
                }
            },
            None => None,
        }
    }
}

proof fn digits_read_back(n: nat)
    ensures
        digits(n).len() > 0,
        all_digits(digits(n)),
        value(digits(n)) == n,
    decreases n,
{
    if n < 10 {
        reveal_with_fuel(value, 2);
        assert(digits(n).drop_last() =~= Seq::<char>::empty());
    } else {
        digits_read_back(n / 10);
        let s = digits(n);
        assert(s.drop_last() =~= digits(n / 10));
        assert forall|i: int| 0 <= i < s.len() implies is_digit(#[trigger] s[i]) by {
            if i < s.len() - 1 {
                assert(s[i] == digits(n / 10)[i]);
            }
        }
    }
}

/// What is written as a number is read as that number.
pub proof fn numerals_read_back(n: int)
    ensures
        signed_value(numeral(n)) == Some(n),
        n >= 0 ==> unsigned_value(numeral(n)) == Some(n),
        numeral(n).len() > 0,
{
    if n < 0 {
        digits_read_back((-n) as nat);
        assert(numeral(n).drop_first() =~= digits((-n) as nat));
    } else {
        digits_read_back(n as nat);
        assert(is_digit(numeral(n)[0]));
    }
}

/// A character that stands between words: a comma or white space.
pub open spec fn is_separator(c: char) -> bool {
    c == ',' || is_space(c)
}

/// The whole words among the first `n` characters, and the word that has begun.
pub open spec fn scan(s: Seq<char>, n: int) -> (Seq<Seq<char>>, Seq<char>)
    decreases n,
{
    if n <= 0 {
        (Seq::empty(), Seq::empty())
    } else {
        let (done, word) = scan(s, n - 1);
        if !is_separator(s[n - 1]) {
            (done, word.push(s[n - 1]))
        } else if word.len() > 0 {
            (done.push(word), Seq::empty())
        } else {
            (done, word)
        }
    }
}

/// The words of a text.
pub open spec fn words(s: Seq<char>) -> Seq<Seq<char>> {
    let (done, word) = scan(s, s.len() as int);
    if word.len() > 0 {
        done.push(word)
    } else {
        done
    }
}

/// Texts as mathematics sees them.
pub open spec fn texts(v: Seq<String>) -> Seq<Seq<char>> {
    Seq::new(v.len(), |i: int| v[i]@)
}

/// The words of a text.
pub fn split_words(s: &str) -> (list: Vec<String>)
    ensures
        texts(list@) == words(s@),
{
    let n: usize = s.unicode_len();
    let mut list: Vec<String> = Vec::new();
    let mut word = String::new();
    let mut len: usize = 0;
    let mut i: usize = 0;
    assert(texts(list@) =~= Seq::<Seq<char>>::empty());
    while i < n
        invariant
            n == s@.len(),
            i <= n,
            len <= i,
            len == word@.len(),
            texts(list@) == scan(s@, i as int).0,
            word@ == scan(s@, i as int).1,
        decreases n - i,
    {
        let c: char = s.get_char(i);
        if c == ',' || is_blank(c) {
            if len > 0 {
                let ghost before = list@;
                let ghost w = word@;
                list.push(word);
                assert(texts(list@) =~= texts(before).push(w));
                word = String::new();
                len = 0;
            }
        } else {
            word.push(c);
            len += 1;
        }
        i += 1;
        assert(word@ =~= scan(s@, i as int).1);
    }
    if len > 0 {
        let ghost before = list@;
        let ghost w = word@;
        list.push(word);
        assert(texts(list@) =~= texts(before).push(w));
    }
    list
}

/// The two numbers of a text that consists of two words.
pub open spec fn pair_of(s: Seq<char>) -> Option<(i32, i32)> {
    let w = words(s);
    if w.len() != 2 {
        None
    } else {
        match (i32_of(w[0]), i32_of(w[1])) {
            (Some(x), Some(y)) => Some((x, y)),
            _ => None,
        }
    }
}

/// Reads the place of a part of the world: two numbers with commas or white space between them.
pub fn parse_megachunk(s: &str) -> (r: Option<(i32, i32)>)
    ensures
        r == pair_of(s@),
{
    let list = split_words(s);
    assert(texts(list@).len() == list@.len());
    if list.len() != 2 {
        return None;
    }
    assert(texts(list@)[0] == list@[0]@);
    assert(texts(list@)[1] == list@[1]@);
    let x = read_i32(list[0].as_str());
    let y = read_i32(list[1].as_str());
    match (x, y) {
        (Some(x), Some(y)) => Some((x, y)),
        _ => None,
    }
}

proof fn scanning_a_word(s: Seq<char>, m: int, k: int)
    requires
        0 <= m,
        0 <= k,
        m + k <= s.len(),
        forall|i: int| m <= i < m + k ==> !is_separator(#[trigger] s[i]),
    ensures
        scan(s, m + k).0 == scan(s, m).0,
        scan(s, m + k).1 == scan(s, m).1 + s.subrange(m, m + k),
    decreases k,
{
    if k > 0 {
        scanning_a_word(s, m, k - 1);
        assert(scan(s, m).1 + s.subrange(m, m + k) =~= (scan(s, m).1 + s.subrange(
            m,
            m + k - 1,
        )).push(s[m + k - 1]));
    } else {
        assert(scan(s, m).1 + s.subrange(m, m) =~= scan(s, m).1);
    }
}

proof fn numerals_have_no_separators(n: int)
    ensures
        forall|i: int| 0 <= i < numeral(n).len() ==> !is_separator(#[trigger] numeral(n)[i]),
{
    if n < 0 {
        digits_read_back((-n) as nat);
        assert forall|i: int| 0 <= i < numeral(n).len() implies !is_separator(
            #[trigger] numeral(n)[i],
        ) by {
            if i > 0 {
                assert(numeral(n)[i] == digits((-n) as nat)[i - 1]);
                assert(is_digit(digits((-n) as nat)[i - 1]));
            }
        }
    } else {
        digits_read_back(n as nat);
        assert forall|i: int| 0 <= i < numeral(n).len() implies !is_separator(
            #[trigger] numeral(n)[i],
        ) by {
            assert(is_digit(digits(n as nat)[i]));
        }
    }
}

/// A comma between two words parts them.
pub proof fn commas_part_words(a: Seq<char>, b: Seq<char>)
    requires
        a.len() > 0,
        b.len() > 0,
        forall|i: int| 0 <= i < a.len() ==> !is_separator(#[trigger] a[i]),
        forall|i: int| 0 <= i < b.len() ==> !is_separator(#[trigger] b[i]),
    ensures
        words(a + seq![','] + b) == seq![a, b],
{
    let s = a + seq![','] + b;
    let m = a.len() as int;
    assert forall|i: int| 0 <= i < m implies !is_separator(#[trigger] s[i]) by {
        assert(s[i] == a[i]);
    }
    scanning_a_word(s, 0, m);
    assert(scan(s, m).1 =~= a);
    assert(s[m] == ',');
    assert(scan(s, m + 1).0 =~= seq![a]);
    assert(scan(s, m + 1).1 =~= Seq::<char>::empty());
    assert forall|i: int| m + 1 <= i < m + 1 + b.len() implies !is_separator(#[trigger] s[i]) by {
        assert(s[i] == b[i - m - 1]);
    }
    scanning_a_word(s, m + 1, b.len() as int);
    assert(scan(s, s.len() as int).1 =~= b);
    assert(words(s) =~= seq![a, b]);
}

/// Two numbers written with a comma between them are read as those two numbers.
pub proof fn megachunks_read_back(x: i32, y: i32)
    ensures
        pair_of(numeral(x as int) + seq![','] + numeral(y as int)) == Some((x, y)),
{
    let a = numeral(x as int);
    let b = numeral(y as int);
    numerals_read_back(x as int);
    numerals_read_back(y as int);
    numerals_have_no_separators(x as int);
    numerals_have_no_separators(y as int);
    commas_part_words(a, b);
    assert(i32_of(a) == Some(x));
    assert(i32_of(b) == Some(y));
}

/// A trimmed text neither begins nor ends with white space, is a part of what it was, and loses
/// nothing but white space.
pub proof fn trimming_takes_only_space(s: Seq<char>) -> (cut: (int, int))
    ensures
        0 <= cut.0 <= cut.1 <= s.len(),
        trimmed(s) == s.subrange(cut.0, cut.1),
        trimmed(s).len() > 0 ==> !is_space(trimmed(s)[0]) && !is_space(trimmed(s).last()),
        forall|i: int| 0 <= i < cut.0 ==> is_space(#[trigger] s[i]),
        forall|i: int| cut.1 <= i < s.len() ==> is_space(#[trigger] s[i]),
{
    let a = leading_space(s);
    let rest = without_leading(s);
    let b = trailing_space(rest);
    assert(rest.subrange(0, b) =~= s.subrange(a, a + b));
    assert forall|i: int| a + b <= i < s.len() implies is_space(#[trigger] s[i]) by {
        assert(rest[i - a] == s[i]);
    }
    (a, a + b)
}

proof fn leading_space(s: Seq<char>) -> (a: int)
    ensures
        0 <= a <= s.len(),
        without_leading(s) == s.subrange(a, s.len() as int),
        forall|i: int| 0 <= i < a ==> is_space(#[trigger] s[i]),
        without_leading(s).len() > 0 ==> !is_space(without_leading(s)[0]),
    decreases s.len(),
{
    if s.len() > 0 && is_space(s[0]) {
        let rest = s.drop_first();
        let a = leading_space(rest);
        assert(rest.subrange(a, rest.len() as int) =~= s.subrange(a + 1, s.len() as int));
        assert forall|i: int| 0 <= i < a + 1 implies is_space(#[trigger] s[i]) by {
            if i > 0 {
                assert(rest[i - 1] == s[i]);
            }
        }
        a + 1
    } else {
        assert(s.subrange(0, s.len() as int) =~= s);
        0
    }
}

proof fn trailing_space(s: Seq<char>) -> (b: int)
    ensures
        0 <= b <= s.len(),
        without_trailing(s) == s.subrange(0, b),
        forall|i: int| b <= i < s.len() ==> is_space(#[trigger] s[i]),
        without_trailing(s).len() > 0 ==> !is_space(without_trailing(s).last()),
    decreases s.len(),
{
    if s.len() > 0 && is_space(s.last()) {
        let rest = s.drop_last();
        let b = trailing_space(rest);
        assert(rest.subrange(0, b) =~= s.subrange(0, b));
        assert forall|i: int| b <= i < s.len() implies is_space(#[trigger] s[i]) by {
            if i < s.len() - 1 {
                assert(rest[i] == s[i]);
            }
        }
        b
    } else {
        assert(s.subrange(0, s.len() as int) =~= s);
        s.len() as int
    }
}

} // verus!
