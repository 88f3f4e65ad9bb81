//! Word-bounded phrase search: a phrase triggers on a message exactly when it
//! occurs with no word character directly before or after the occurrence.

use vstd::prelude::*;
use crate::strutil::chars_of;

verus! {

/// A character that can extend a word: an ASCII letter, digit or underscore.
pub open spec fn is_word_char(c: char) -> bool {
    let u = c as u32;
    (97 <= u && u <= 122) || (65 <= u && u <= 90) || (48 <= u && u <= 57) || u == 95
}

/// `phrase` stands at position `i` of `text`, bounded by word boundaries.
pub open spec fn phrase_at(phrase: Seq<char>, text: Seq<char>, i: int) -> bool {
    &&& 0 <= i
    &&& i + phrase.len() <= text.len()
    &&& text.subrange(i, i + phrase.len() as int) == phrase
    &&& (i == 0 || !is_word_char(text[i - 1]))
    &&& (i + phrase.len() == text.len() || !is_word_char(text[i + phrase.len()]))
}

/// The phrase occurs somewhere in the text as a whole word.
pub open spec fn phrase_triggers(phrase: Seq<char>, text: Seq<char>) -> bool {
    exists|i: int| phrase_at(phrase, text, i)
}

fn is_word_char_exec(c: char) -> (r: bool)
    ensures
        r == is_word_char(c),
{
    let u: u32 = c as u32;
    (97 <= u && u <= 122) || (65 <= u && u <= 90) || (48 <= u && u <= 57) || u == 95
}

/// Whether `p` occurs at position `i` of `t`.
fn occurs_at(t: &Vec<char>, p: &Vec<char>, i: usize) -> (r: bool)
    requires
        i + p@.len() <= t@.len(),
    ensures
        r == (t@.subrange(i as int, i as int + p@.len() as int) == p@),
{
    let n = p.len();
    let tlen = t.len();
    let mut k: usize = 0;
    while k < n
        invariant
            n == p@.len(),
            tlen == t@.len(),
            i + n <= tlen,
            k <= n,
            forall|m: int| 0 <= m < k ==> #[trigger] t@[i + m] == p@[m],
        decreases n - k,
    {
        if t[i + k] != p[k] {
            proof {
                assert(t@.subrange(i as int, i as int + p@.len() as int)[k as int] != p@[
                    k as int]);
            }
            return false;
        }
        k = k + 1;
    }
    proof {
        assert forall|m: int|
            0 <= m < p@.len() implies t@.subrange(i as int, i as int + p@.len() as int)[m] == p@[
            m] by {
            assert(t@[i + m] == p@[m]);
        }
        assert(t@.subrange(i as int, i as int + p@.len() as int) =~= p@);
    }
    true
}

/// Searches `text` for a word-bounded occurrence of `phrase`.
pub fn phrase_match(phrase: &str, text: &str) -> (r: bool)
    ensures
        r == phrase_triggers(phrase@, text@),
{
    let p = chars_of(phrase);
    let t = chars_of(text);
    let plen = p.len();
    let tlen = t.len();
    if plen > tlen {
        proof {
            assert(forall|i: int| !phrase_at(p@, t@, i));
        }
        return false;
    }
    let bound = tlen - plen;
    let mut i: usize = 0;
    loop
        invariant_except_break
            p@ == phrase@,
            t@ == text@,
            plen == p@.len(),
            tlen == t@.len(),
            plen <= tlen,
            bound == tlen - plen,
            i <= bound,
            forall|j: int| 0 <= j < i ==> !phrase_at(p@, t@, j),
        ensures
            p@ == phrase@,
            t@ == text@,
            plen == p@.len(),
            tlen == t@.len(),
            bound == tlen - plen,
            forall|j: int| 0 <= j <= bound ==> !phrase_at(p@, t@, j),
        decreases bound - i,
    {
        let left_ok = i == 0 || !is_word_char_exec(t[i - 1]);
        let right_ok = i + plen == tlen || !is_word_char_exec(t[i + plen]);
        if left_ok && right_ok && occurs_at(&t, &p, i) {
            proof {
                assert(phrase_at(p@, t@, i as int));
            }
            return true;
        }
        proof {
            assert(!phrase_at(p@, t@, i as int));
        }
        if i == bound {
            break;
        }
        i = i + 1;
    }
    proof {
        assert forall|j: int| !phrase_at(p@, t@, j) by {
            if j > tlen - plen {
                assert(!phrase_at(p@, t@, j));
            }
        }
    }
    false
}

} // verus!
