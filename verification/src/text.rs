use vstd::prelude::*;
use vstd::std_specs::iter::IteratorSpec;

verus! {

/// `String::push`: claimed to append `c` to the end of `s` and change
/// nothing else, as std documents it.
#[verifier::external_body]
pub(crate) fn push_char(s: &mut String, c: char)
    ensures
        final(s)@ == old(s)@.push(c),
{
    s.push(c);
}

/// The characters of `s`, in order.
pub fn chars_of(s: &str) -> (v: Vec<char>)
    ensures
        v@ == s@,
{
    let mut v: Vec<char> = Vec::new();
    let mut it = s.chars();
    proof {
        broadcast use vstd::string::group_string_axioms;
    }
    loop
        invariant
            v@ + it.remaining() == s@,
            it.decrease() is Some,
        ensures
            v@ == s@,
        decreases it.decrease()->0,
    {
        match it.next() {
            Some(c) => {
                v.push(c);
            },
            None => {
                break;
            },
        }
    }
    v
}

/// `word` stands in `cs` from position `from` on.
pub fn matches_at(cs: &Vec<char>, from: usize, word: &str) -> (b: bool)
    requires
        from <= cs.len(),
    ensures
        b == (from + word@.len() <= cs@.len() && cs@.subrange(from as int, from + word@.len())
            == word@),
{
    let w = chars_of(word);
    if w.len() > cs.len() - from {
        return false;
    }
    let mut i: usize = 0;
    while i < w.len()
        invariant
            w@ == word@,
            from + w.len() <= cs.len(),
            i <= w.len(),
            forall|k: int| 0 <= k < i ==> cs@[from + k] == w@[k],
        decreases w.len() - i,
    {
        if cs[from + i] != w[i] {
            assert(cs@.subrange(from as int, from + w@.len())[i as int] != w@[i as int]);
            return false;
        }
        i = i + 1;
    }
    assert(cs@.subrange(from as int, from + w@.len()) =~= w@);
    true
}

}
