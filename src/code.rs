//! Building a wormhole code from a nameplate and words.
use vstd::prelude::*;
use vstd::string::*;
use crate::event::{Code, Nameplate};

verus! {

/// `np`, then each word after a `-`.
pub open spec fn joined(np: Seq<char>, ws: Seq<Seq<char>>) -> Seq<char>
    decreases ws.len(),
{
    if ws.len() == 0 {
        np
    } else {
        joined(np, ws.drop_last()) + seq!['-'] + ws.last()
    }
}

/// The number of `-` in `s`.
pub open spec fn dashes(s: Seq<char>) -> nat
    decreases s.len(),
{
    if s.len() == 0 {
        0
    } else {
        dashes(s.drop_last()) + if s.last() == '-' { 1nat } else { 0nat }
    }
}

proof fn lemma_dashes_add(a: Seq<char>, b: Seq<char>)
    ensures
        dashes(a + b) == dashes(a) + dashes(b),
    decreases b.len(),
{
    if b.len() > 0 {
        lemma_dashes_add(a, b.drop_last());
        assert((a + b).drop_last() =~= a + b.drop_last());
    } else {
        assert(a + b =~= a);
    }
}

proof fn lemma_joined_dashes(np: Seq<char>, ws: Seq<Seq<char>>)
    requires
        dashes(np) == 0,
        forall|i: int| 0 <= i < ws.len() ==> dashes(#[trigger] ws[i]) == 0,
    ensures
        dashes(joined(np, ws)) == ws.len(),
    decreases ws.len(),
{
    if ws.len() > 0 {
        lemma_joined_dashes(np, ws.drop_last());
        let front = joined(np, ws.drop_last());
        lemma_dashes_add(front, seq!['-']);
        lemma_dashes_add(front + seq!['-'], ws.last());
        assert(dashes(seq!['-']) == 1) by {
            let d = seq!['-'];
            assert(d.drop_last() =~= Seq::<char>::empty());
            assert(dashes(d.drop_last()) == 0);
            assert(d.last() == '-');
        }
    }
}

/// A code of `n` words has `n + 1` parts: where neither the nameplate nor a
/// word holds a `-`, the joined code holds exactly one `-` per word.
pub proof fn code_has_one_part_per_word_and_the_nameplate(np: Seq<char>, ws: Seq<Seq<char>>)
    requires
        dashes(np) == 0,
        forall|i: int| 0 <= i < ws.len() ==> dashes(#[trigger] ws[i]) == 0,
    ensures
        dashes(joined(np, ws)) + 1 == ws.len() + 1,
{
    lemma_joined_dashes(np, ws);
}

pub open spec fn views(ws: Seq<String>) -> Seq<Seq<char>> {
    ws.map_values(|w: String| w@)
}

/// The code `<nameplate>-<word>-...-<word>`.
pub fn make_code(nameplate: &Nameplate, words: &Vec<String>) -> (r: Code)
    ensures
        r.0@ == joined(nameplate.0@, views(words@)),
{
    let mut s = String::from_str(nameplate.0.as_str());
    let mut i: usize = 0;
    while i < words.len()
        invariant
            i <= words@.len(),
            s@ == joined(nameplate.0@, views(words@.take(i as int))),
        decreases words@.len() - i,
    {
        s.append("-");
        s.append(words[i].as_str());
        proof {
            reveal_strlit("-");
            assert(views(words@.take(i + 1)).drop_last() =~= views(words@.take(i as int)));
            assert(views(words@.take(i + 1)).last() == words@[i as int]@);
        }
        i = i + 1;
    }
    assert(words@.take(i as int) =~= words@);
    Code(s)
}

/// Splits a code at its first `-` into the nameplate and the words, which
/// feed the Nameplate and the Key machines; `None` where it holds no `-`.
pub fn split_code(code: &Code) -> (r: Option<(Nameplate, String)>)
    ensures
        r is None <==> !code.0@.contains('-'),
        match r {
            Some((np, words)) => {
                let k = np.0@.len() as int;
                &&& 0 <= k < code.0@.len()
                &&& code.0@[k] == '-'
                &&& forall|i: int| 0 <= i < k ==> code.0@[i] != '-'
                &&& np.0@ == code.0@.take(k)
                &&& words@ == code.0@.skip(k + 1)
            },
            None => true,
        },
{
    let s = code.0.as_str();
    let n = s.unicode_len();
    let mut i: usize = 0;
    while i < n
        invariant
            n == s@.len(),
            s@ == code.0@,
            i <= n,
            forall|j: int| 0 <= j < i ==> s@[j] != '-',
        decreases n - i,
    {
        if s.get_char(i) == '-' {
            let np = s.substring_char(0, i).to_owned();
            let words = s.substring_char(i + 1, n).to_owned();
            assert(code.0@.skip(i + 1) =~= code.0@.subrange(i + 1, n as int));
            assert(code.0@.take(i as int) =~= code.0@.subrange(0, i as int));
            return Some((Nameplate(np), words));
        }
        i = i + 1;
    }
    None
}

} // verus!
