//! Small verified utilities on strings: character-wise equality and
//! space padding, used when rendering usage text.

use vstd::prelude::*;
use vstd::string::StrSliceExecFns;
use vstd::string::StringExecFns;

verus! {

/// A sequence of `n` space characters.
pub open spec fn spaces(n: nat) -> Seq<char> {
    Seq::new(n, |i: int| ' ')
}

/// `s` extended with spaces on the right up to a minimum width of `w`
/// characters; a longer `s` is kept as it is.
pub open spec fn padded(s: Seq<char>, w: nat) -> Seq<char> {
    if s.len() >= w {
        s
    } else {
        s + spaces((w - s.len()) as nat)
    }
}

/// Compares two string slices character by character.
pub fn str_eq(a: &str, b: &str) -> (r: bool)
    ensures
        r == (a@ == b@),
{
    let a_len = a.unicode_len();
    let b_len = b.unicode_len();
    if a_len != b_len {
        return false;
    }
    let mut i: usize = 0;
    while i < a_len
        invariant
            a_len == a@.len(),
            b_len == b@.len(),
            a_len == b_len,
            0 <= i <= a_len,
            forall|k: int| 0 <= k < i ==> a@[k] == b@[k],
        decreases a_len - i,
    {
        if a.get_char(i) != b.get_char(i) {
            return false;
        }
        i += 1;
    }
    proof {
        assert(a@ =~= b@);
    }
    true
}

/// Appends `s` to `dst`, then appends spaces until the appended portion is
/// at least `width` characters wide.
pub fn append_padded(dst: &mut String, s: &str, width: usize)
    ensures
        final(dst)@ == old(dst)@ + padded(s@, width as nat),
{
    dst.append(s);
    let n = s.unicode_len();
    if n >= width {
        proof {
            assert(dst@ =~= old(dst)@ + padded(s@, width as nat));
        }
        return ;
    }
    let mut i: usize = n;
    while i < width
        invariant
            n == s@.len(),
            n <= i <= width,
            dst@ == old(dst)@ + s@ + spaces((i - n) as nat),
        decreases width - i,
    {
        dst.append(" ");
        proof {
            reveal_strlit(" ");
            assert(dst@ =~= old(dst)@ + s@ + spaces((i + 1 - n) as nat));
        }
        i += 1;
    }
    proof {
        assert(dst@ =~= old(dst)@ + padded(s@, width as nat));
    }
}

} // verus!
