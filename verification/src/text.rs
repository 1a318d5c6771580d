//! Small string operations that the rest of the library is built from.

use vstd::prelude::*;
use vstd::string::StringExecFns;

verus! {

/// Taken on trust of `String::push`: it appends the one character to the end
/// of the string and changes nothing else of it.
pub assume_specification[ String::push ](s: &mut String, c: char)
    ensures
        final(s)@ == old(s)@.push(c),
;

/// Whether two strings hold the same characters.
pub fn same_text(a: &str, b: &str) -> (same: bool)
    ensures
        same == (a@ == b@),
{
    let x = a.as_bytes();
    let y = b.as_bytes();
    proof {
        // Two texts with the same encoding are the same text.
        vstd::utf8::encode_utf8_decode_utf8(a@);
        vstd::utf8::encode_utf8_decode_utf8(b@);
    }
    if x.len() != y.len() {
        return false;
    }
    let mut i: usize = 0;
    while i < x.len()
        invariant
            x@ == vstd::utf8::encode_utf8(a@),
            y@ == vstd::utf8::encode_utf8(b@),
            x.len() == y.len(),
            i <= x.len(),
            x@.take(i as int) == y@.take(i as int),
        decreases x.len() - i,
    {
        if x[i] != y[i] {
            return false;
        }
        proof {
            assert(x@.take(i + 1) == x@.take(i as int).push(x@[i as int]));
            assert(y@.take(i + 1) == y@.take(i as int).push(y@[i as int]));
        }
        i += 1;
    }
    proof {
        assert(x@ == x@.take(i as int));
        assert(y@ == y@.take(i as int));
    }
    true
}

/// `words` put one after the other, with a single space between each two.
pub open spec fn spaced(words: Seq<Seq<char>>) -> Seq<char>
    decreases words.len(),
{
    if words.len() == 0 {
        Seq::empty()
    } else if words.len() == 1 {
        words[0]
    } else {
        spaced(words.drop_last()) + seq![' '] + words.last()
    }
}

/// Joins `words` into one string, with a single space between each two.
pub fn join_words(words: &[String]) -> (text: String)
    ensures
        text@ == spaced(words.deep_view()),
{
    let mut text = String::new();
    let mut i: usize = 0;
    while i < words.len()
        invariant
            i <= words.len(),
            text@ == spaced(words.deep_view().take(i as int)),
        decreases words.len() - i,
    {
        proof {
            let done = words.deep_view().take(i + 1);
            assert(done.drop_last() == words.deep_view().take(i as int));
            assert(done.last() == words[i as int]@);
            if i == 0 {
                assert(Seq::<char>::empty() + words[0]@ == words[0]@);
            }
        }
        if i > 0 {
            text.push(' ');
        }
        text.append(words[i].as_str());
        i += 1;
    }
    proof {
        assert(words.deep_view().take(i as int) == words.deep_view());
    }
    text
}

} // verus!
