//! Byte offsets into text: how long text is in UTF-8, and where an offset falls.
use vstd::prelude::*;
use vstd::string::*;
use vstd::utf8::*;

verus! {

/// The number of bytes of a character in UTF-8.
pub open spec fn char_width(c: char) -> nat {
    let n = c as u32;
    if n < 0x80 {
        1
    } else if n < 0x800 {
        2
    } else if n < 0x10000 {
        3
    } else {
        4
    }
}

/// The number of bytes of a text in UTF-8.
pub open spec fn byte_len(s: Seq<char>) -> nat
    decreases s.len(),
{
    if s.len() == 0 {
        0
    } else {
        char_width(s[0]) + byte_len(s.skip(1))
    }
}

/// The character at which byte `b` of a text begins a character, or the end of the text; none
/// where `b` falls inside a character or behind the end.
pub open spec fn index_at_byte(s: Seq<char>, b: nat) -> Option<nat>
    decreases s.len(),
{
    if b == 0 {
        Some(0)
    } else if s.len() == 0 || char_width(s[0]) > b {
        None
    } else {
        match index_at_byte(s.skip(1), (b - char_width(s[0])) as nat) {
            Some(i) => Some(i + 1),
            None => None,
        }
    }
}

/// The length in bytes is the length of the UTF-8 encoding.
pub proof fn lemma_byte_len(s: Seq<char>)
    ensures
        byte_len(s) == encode_utf8(s).len(),
    decreases s.len(),
{
    if s.len() > 0 {
        lemma_byte_len(s.skip(1));
        assert(s.drop_first() =~= s.skip(1));
        char_is_scalar(s[0]);
    }
}

/// What `index_at_byte` finds is a position in the text, with `b` bytes in front of it.
pub proof fn lemma_index_at_byte(s: Seq<char>, b: nat)
    ensures
        index_at_byte(s, b) matches Some(i) ==> i <= s.len() && byte_len(s.take(i as int)) == b,
    decreases s.len(),
{
    if b == 0 {
        assert(s.take(0) =~= Seq::<char>::empty());
    } else if s.len() > 0 && char_width(s[0]) <= b {
        lemma_index_at_byte(s.skip(1), (b - char_width(s[0])) as nat);
        match index_at_byte(s.skip(1), (b - char_width(s[0])) as nat) {
            Some(i) => {
                assert(s.take(i as int + 1).skip(1) =~= s.skip(1).take(i as int));
                assert(s.take(i as int + 1)[0] == s[0]);
            },
            None => {},
        }
    }
}

/// The number of bytes of a string.
pub fn byte_length(s: &str) -> (r: usize)
    ensures
        r == byte_len(s@),
{
    proof {
        lemma_byte_len(s@);
    }
    s.as_bytes().len()
}

fn width(c: char) -> (r: usize)
    ensures
        r == char_width(c),
        1 <= r <= 4,
{
    let n: u32 = c as u32;
    if n < 0x80 {
        1
    } else if n < 0x800 {
        2
    } else if n < 0x10000 {
        3
    } else {
        4
    }
}

/// The character at which byte `b` falls.
pub fn char_index(v: &[char], b: usize) -> (r: Option<usize>)
    ensures
        match r {
            Some(i) => index_at_byte(v@, b as nat) == Some(i as nat) && i <= v@.len(),
            None => index_at_byte(v@, b as nat) is None,
        },
{
    let mut i: usize = 0;
    let mut left: usize = b;
    assert(v@.skip(0) =~= v@);
    while left > 0
        invariant
            i <= v@.len(),
            index_at_byte(v@, b as nat) == (match index_at_byte(v@.skip(i as int), left as nat) {
                Some(k) => Some(k + i as nat),
                None => None,
            }),
        decreases v@.len() - i,
    {
        if i == v.len() {
            return None;
        }
        let w = width(v[i]);
        if w > left {
            return None;
        }
        assert(v@.skip(i as int).skip(1) =~= v@.skip(i + 1));
        left -= w;
        i += 1;
    }
    Some(i)
}

/// The bytes in front of a character lead to it.
pub proof fn law_bytes_lead_to_characters(s: Seq<char>, i: int)
    requires
        0 <= i <= s.len(),
    ensures
        index_at_byte(s, byte_len(s.take(i))) == Some(i as nat),
    decreases i,
{
    if i == 0 {
        assert(s.take(0) =~= Seq::<char>::empty());
    } else {
        let t = s.skip(1);
        law_bytes_lead_to_characters(t, i - 1);
        assert(s.take(i).skip(1) =~= t.take(i - 1));
        assert(s.take(i)[0] == s[0]);
    }
}

} // verus!
