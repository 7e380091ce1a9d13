//! Search-path lists: entries separated by `:`.

use vstd::prelude::*;
use crate::outside::push_char;
use crate::runner::texts;
use crate::text::{chars_of, first_index, lemma_first_index_absent, lemma_first_index_at};

verus! {

/// The pieces of `s` between occurrences of `c`, empty ones included.
pub open spec fn split_on(s: Seq<char>, c: char) -> Seq<Seq<char>>
    decreases s.len(),
{
    match first_index(s, c) {
        Some(i) => if 0 <= i < s.len() {
            seq![s.take(i)] + split_on(s.skip(i + 1), c)
        } else {
            seq![s]
        },
        None => seq![s],
    }
}

/// The entries of a search-path list, in order: the pieces between `:`,
/// empty ones included.
pub fn split_paths(unparsed: &str) -> (r: Vec<String>)
    ensures
        texts(r@) == split_on(unparsed@, ':'),
{
    let cs = chars_of(unparsed);
    let ghost s = unparsed@;
    let mut r: Vec<String> = Vec::new();
    let mut cur = String::new();
    let mut start: usize = 0;
    let mut i: usize = 0;
    assert(s.skip(0) =~= s);
    assert(texts(r@) + split_on(s, ':') =~= split_on(s, ':'));
    while i < cs.len()
        invariant
            cs@ == s,
            start <= i <= s.len(),
            cur@ == s.subrange(start as int, i as int),
            forall|j: int| start <= j < i ==> s[j] != ':',
            split_on(s, ':') == texts(r@) + split_on(s.skip(start as int), ':'),
        decreases cs.len() - i,
    {
        if cs[i] == ':' {
            let ghost rest = s.skip(start as int);
            proof {
                assert forall|j: int| 0 <= j < i - start implies rest[j] != ':' by {
                    assert(rest[j] == s[start + j]);
                }
                lemma_first_index_at(rest, ':', i - start);
                assert(rest.take(i - start) =~= cur@);
                assert(rest.skip(i - start + 1) =~= s.skip(i + 1));
            }
            let ghost before = r@;
            r.push(cur);
            assert(texts(r@) =~= texts(before).push(rest.take(i - start)));
            assert(texts(before) + split_on(rest, ':') =~= texts(r@) + split_on(s.skip(i + 1), ':'));
            cur = String::new();
            start = i + 1;
        } else {
            push_char(&mut cur, cs[i]);
            assert(cur@ =~= s.subrange(start as int, i + 1));
        }
        i = i + 1;
    }
    let ghost rest = s.skip(start as int);
    proof {
        assert forall|j: int| 0 <= j < rest.len() implies rest[j] != ':' by {
            assert(rest[j] == s[start + j]);
        }
        lemma_first_index_absent(rest, ':');
        assert(rest =~= cur@);
    }
    let ghost before = r@;
    r.push(cur);
    assert(texts(r@) =~= texts(before) + seq![rest]);
    r
}

} // verus!
