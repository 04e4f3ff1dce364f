//! Splitting a feed line into whitespace-separated tokens.
//!
//! The statistics format separates fields with single spaces, and the
//! aggregate row carries an extra empty field between two consecutive spaces.
//! Splitting therefore keeps empty tokens: two adjacent spaces yield an empty
//! token between them, and the empty line yields one empty token.

use vstd::prelude::*;
use vstd::string::StrSliceExecFns;

verus! {

/// The tokens of `s`, split at every space character, empty tokens kept.
pub open spec fn spec_split(s: Seq<char>) -> Seq<Seq<char>>
    decreases s.len(),
{
    if s.len() == 0 {
        seq![Seq::<char>::empty()]
    } else if s.last() == ' ' {
        spec_split(s.drop_last()).push(Seq::<char>::empty())
    } else {
        let rest = spec_split(s.drop_last());
        rest.update(rest.len() - 1, rest.last().push(s.last()))
    }
}

/// Splitting always yields at least one token.
pub proof fn lemma_split_len(s: Seq<char>)
    ensures
        spec_split(s).len() >= 1,
    decreases s.len(),
{
    if s.len() > 0 {
        lemma_split_len(s.drop_last());
    }
}

/// A line that splits into a single token is that token itself.
pub proof fn lemma_split_single(s: Seq<char>)
    ensures
        spec_split(s).len() == 1 ==> spec_split(s)[0] == s,
    decreases s.len(),
{
    if s.len() == 0 {
        assert(spec_split(s)[0] =~= s);
    } else if s.last() == ' ' {
        lemma_split_len(s.drop_last());
    } else {
        lemma_split_single(s.drop_last());
        lemma_split_len(s.drop_last());
        let rest = spec_split(s.drop_last());
        if rest.len() == 1 {
            assert(spec_split(s)[0] =~= s);
        }
    }
}

/// The first token of a line is a prefix of the line.
pub proof fn lemma_split_first_prefix(s: Seq<char>)
    ensures
        spec_split(s)[0].len() <= s.len(),
        spec_split(s)[0] == s.take(spec_split(s)[0].len() as int),
    decreases s.len(),
{
    lemma_split_len(s);
    if s.len() == 0 {
        assert(spec_split(s)[0] =~= s.take(0));
    } else if s.last() == ' ' {
        let b = s.drop_last();
        lemma_split_len(b);
        lemma_split_first_prefix(b);
        let t = spec_split(s)[0];
        assert(t == spec_split(b)[0]);
        assert(s.take(t.len() as int) =~= b.take(t.len() as int));
    } else {
        let b = s.drop_last();
        let rest = spec_split(b);
        lemma_split_len(b);
        if rest.len() >= 2 {
            lemma_split_first_prefix(b);
            let t = spec_split(s)[0];
            assert(t == rest[0]);
            assert(s.take(t.len() as int) =~= b.take(t.len() as int));
        } else {
            lemma_split_single(b);
            let t = spec_split(s)[0];
            assert(t == rest[0].push(s.last()));
            assert(t =~= s);
            assert(s.take(t.len() as int) =~= s);
        }
    }
}

/// The characters of `s`, in order.
pub fn chars_of(s: &str) -> (r: Vec<char>)
    ensures
        r@ == s@,
{
    let n = s.unicode_len();
    let mut r: Vec<char> = Vec::new();
    let mut i: usize = 0;
    while i < n
        invariant
            0 <= i <= n,
            n == s@.len(),
            r@ == s@.take(i as int),
        decreases n - i,
    {
        let c = s.get_char(i);
        r.push(c);
        proof {
            assert(r@ =~= s@.take(i + 1 as int));
        }
        i = i + 1;
    }
    proof {
        assert(s@.take(i as int) =~= s@);
    }
    r
}

/// Split `cs` at every space character, keeping empty tokens.
pub fn split_spaces(cs: &Vec<char>) -> (toks: Vec<Vec<char>>)
    ensures
        toks.deep_view() == spec_split(cs@),
        toks.len() >= 1,
{
    let mut toks: Vec<Vec<char>> = Vec::new();
    let mut cur: Vec<char> = Vec::new();
    let mut i: usize = 0;
    proof {
        assert(cs@.take(0) =~= Seq::<char>::empty());
        assert(toks.deep_view() =~~= spec_split(cs@.take(0)).drop_last());
    }
    while i < cs.len()
        invariant
            0 <= i <= cs.len(),
            toks.deep_view() == spec_split(cs@.take(i as int)).drop_last(),
            cur@ == spec_split(cs@.take(i as int)).last(),
        decreases cs.len() - i,
    {
        proof {
            lemma_split_len(cs@.take(i as int));
            assert(cs@.take(i + 1 as int).drop_last() =~= cs@.take(i as int));
            assert(cs@.take(i + 1 as int).last() == cs@[i as int]);
        }
        let c: char = cs[i];
        if c == ' ' {
            toks.push(cur);
            cur = Vec::new();
            proof {
                let sp = spec_split(cs@.take(i as int));
                assert(toks.deep_view() =~~= sp.drop_last().push(sp.last()));
                assert(sp.drop_last().push(sp.last()) =~~= sp);
                assert(toks.deep_view() =~~= spec_split(cs@.take(i + 1 as int)).drop_last());
            }
        } else {
            cur.push(c);
            proof {
                let sp = spec_split(cs@.take(i as int));
                let sp1 = spec_split(cs@.take(i + 1 as int));
                assert(sp1 == sp.update(sp.len() - 1, sp.last().push(cs@[i as int])));
                assert(toks.deep_view() =~~= sp1.drop_last());
                assert(cur@ =~= sp1.last());
            }
        }
        i = i + 1;
    }
    proof {
        assert(cs@.take(i as int) =~= cs@);
        lemma_split_len(cs@);
    }
    toks.push(cur);
    proof {
        let sp = spec_split(cs@);
        assert(toks.deep_view() =~~= sp.drop_last().push(sp.last()));
        assert(sp.drop_last().push(sp.last()) =~~= sp);
    }
    toks
}

} // verus!
