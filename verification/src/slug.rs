//! File-name stems for saved designs.

use vstd::prelude::*;
use vstd::string::*;

verus! {

/// `String::push` appends one character.
pub assume_specification[ String::push ](s: &mut String, c: char)
    ensures
        final(s)@ == old(s)@.push(c),
;

/// A letter or digit of ASCII.
pub open spec fn alphanumeric(c: char) -> bool {
    ('0' <= c && c <= '9') || ('a' <= c && c <= 'z') || ('A' <= c && c <= 'Z')
}

/// The lower-case form of an ASCII letter; any other character itself.
pub open spec fn lowered(c: char) -> char {
    if 'A' <= c && c <= 'Z' {
        (c as u32 + 32) as char
    } else {
        c
    }
}

/// The letters and digits of `s` in lower case, with one underscore for each run of other
/// characters that follows a letter or digit.
pub open spec fn squeezed(s: Seq<char>) -> Seq<char>
    decreases s.len(),
{
    if s.len() == 0 {
        Seq::empty()
    } else {
        let before = squeezed(s.drop_last());
        let c = s.last();
        if alphanumeric(c) {
            before.push(lowered(c))
        } else if before.len() == 0 || before.last() == '_' {
            before
        } else {
            before.push('_')
        }
    }
}

/// `s` without a closing underscore.
pub open spec fn stripped(s: Seq<char>) -> Seq<char> {
    if s.len() > 0 && s.last() == '_' {
        s.drop_last()
    } else {
        s
    }
}

/// The stem for a design's name: the squeezed name, cut to 48 characters and without a closing
/// underscore; `design` where that leaves nothing.
pub open spec fn slug_of(name: Seq<char>) -> Seq<char> {
    let s = squeezed(name);
    let stem = stripped(
        if s.len() > 48 {
            s.take(48)
        } else {
            s
        },
    );
    if stem.len() == 0 {
        "design"@
    } else {
        stem
    }
}

fn lower_letter(c: char) -> (r: char)
    requires
        'A' <= c && c <= 'Z',
    ensures
        r == lowered(c),
{
    let code: u8 = (c as u32 + 32) as u8;
    code as char
}

/// Appends to `out` the characters of `list` from 0 up to `n`.
fn text_of(list: &Vec<char>, n: usize) -> (out: String)
    requires
        n <= list@.len(),
    ensures
        out@ == list@.take(n as int),
{
    let mut out = String::new();
    let mut i: usize = 0;
    assert(list@.take(0) =~= Seq::<char>::empty());
    while i < n
        invariant
            i <= n <= list@.len(),
            out@ == list@.take(i as int),
        decreases n - i,
    {
        out.push(list[i]);
        i += 1;
        assert(out@ =~= list@.take(i as int));
    }
    out
}

/// The stem of the file that a design is saved under.
pub fn slugify(name: &str) -> (slug: String)
    ensures
        slug@ == slug_of(name@),
{
    let n: usize = name.unicode_len();
    let mut list: Vec<char> = Vec::new();
    let mut i: usize = 0;
    assert(name@.take(0) =~= Seq::<char>::empty());
    while i < n
        invariant
            i <= n,
            n == name@.len(),
            list@ == squeezed(name@.take(i as int)),
        decreases n - i,
    {
        let c: char = name.get_char(i);
        proof {
            let next = name@.take(i + 1);
            assert(next.drop_last() =~= name@.take(i as int));
            assert(next.last() == c);
        }
        if ('0' <= c && c <= '9') || ('a' <= c && c <= 'z') {
            list.push(c);
        } else if 'A' <= c && c <= 'Z' {
            list.push(lower_letter(c));
        } else if list.len() > 0 && list[list.len() - 1] != '_' {
            list.push('_');
        }
        i += 1;
    }
    assert(name@.take(i as int) =~= name@);
    let mut len: usize = if list.len() > 48 {
        48
    } else {
        list.len()
    };
    let ghost cut = list@.take(len as int);
    proof {
        assert(list@.take(list@.len() as int) =~= list@);
        if len > 0 && cut.last() == '_' {
            assert(cut.drop_last() =~= list@.take(len - 1));
        }
    }
    if len > 0 && list[len - 1] == '_' {
        len = len - 1;
    }
    if len == 0 {
        return "design".to_owned();
    }
    text_of(&list, len)
}

/// A character that may stand in a stem.
pub open spec fn stem_char(c: char) -> bool {
    ('0' <= c && c <= '9') || ('a' <= c && c <= 'z') || c == '_'
}

/// No underscore at the start, and none beside another.
pub open spec fn tidy(s: Seq<char>) -> bool {
    &&& forall|i: int| 0 <= i < s.len() ==> stem_char(#[trigger] s[i])
    &&& s.len() > 0 ==> s[0] != '_'
    &&& forall|i: int, j: int|
        0 <= i && j == i + 1 && j < s.len() && #[trigger] s[i] == '_' ==> #[trigger] s[j] != '_'
}

proof fn squeezed_is_tidy(s: Seq<char>)
    ensures
        tidy(squeezed(s)),
    decreases s.len(),
{
    if s.len() > 0 {
        squeezed_is_tidy(s.drop_last());
    }
}

/// A stem has between 1 and 48 characters, all of them lower-case letters, digits or
/// underscores, with no underscore at either end and never two together.
pub proof fn slugs_are_tidy(name: Seq<char>)
    ensures
        1 <= slug_of(name).len() <= 48,
        tidy(slug_of(name)),
        slug_of(name).last() != '_',
{
    squeezed_is_tidy(name);
    reveal_strlit("design");
    assert("design"@.len() == 6);
    assert("design"@[0] == 'd' && "design"@[1] == 'e' && "design"@[2] == 's' && "design"@[3] == 'i'
        && "design"@[4] == 'g' && "design"@[5] == 'n');
    assert(tidy("design"@)) by {
        assert forall|i: int| 0 <= i < 6 implies stem_char(#[trigger] "design"@[i]) by {}
    }
}

/// A name that is a stem already, does not end in an underscore and is short enough is kept.
pub proof fn slugs_of_stems(name: Seq<char>)
    requires
        tidy(name),
        1 <= name.len() <= 48,
        name.last() != '_',
    ensures
        slug_of(name) == name,
{
    stem_is_squeezed(name);
}

proof fn stem_is_squeezed(s: Seq<char>)
    requires
        tidy(s),
    ensures
        squeezed(s) == s,
    decreases s.len(),
{
    if s.len() > 0 {
        let before = s.drop_last();
        assert forall|i: int, j: int|
            0 <= i && j == i + 1 && j < before.len() && #[trigger] before[i]
                == '_' implies #[trigger] before[j] != '_' by {
            assert(before[i] == s[i] && before[j] == s[j]);
        }
        stem_is_squeezed(before);
        assert(stem_char(s[s.len() - 1]));
        if s.last() == '_' {
            if before.len() > 0 {
                assert(s[s.len() - 2] != '_' || s[s.len() - 1] != '_');
            }
        }
        assert(before.push(s.last()) =~= s);
    } else {
        assert(squeezed(s) =~= s);
    }
}

} // verus!
