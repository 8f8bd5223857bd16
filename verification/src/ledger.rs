//! The ledger: a line-oriented record of the projects that currently have
//! wallpapers installed. Recording appends a line; forgetting removes the
//! first exact substring occurrence of the name (a textual operation, not a
//! line delete); enumeration yields the nonempty lines in order.

use vstd::prelude::*;

use crate::bytes::append_bytes;
use crate::bytes::copy_range;
use crate::bytes::remove_first;
use crate::bytes::remove_first_spec;

verus! {

/// Index of the first newline byte in `s`, or `s.len()` when there is none.
pub open spec fn first_nl(s: Seq<u8>) -> nat
    decreases s.len(),
{
    if s.len() == 0 {
        0
    } else if s[0] == 10u8 {
        0
    } else {
        1 + first_nl(s.subrange(1, s.len() as int))
    }
}

/// `first_nl` is determined by where the newlines are: if nothing before `j`
/// is a newline and `j` is a newline (or the end), then `first_nl` is `j`.
pub proof fn lemma_first_nl_at(s: Seq<u8>, j: int)
    requires
        0 <= j <= s.len(),
        forall|k: int| 0 <= k < j ==> s[k] != 10u8,
        j == s.len() || s[j] == 10u8,
    ensures
        first_nl(s) == j,
    decreases s.len(),
{
    if s.len() == 0 {
    } else if s[0] == 10u8 {
        if j > 0 {
            assert(s[0] != 10u8);
        }
    } else {
        assert(j != 0);
        let t = s.subrange(1, s.len() as int);
        assert(forall|k: int| 0 <= k < j - 1 ==> t[k] == s[k + 1] && t[k] != 10u8);
        if j < s.len() {
            assert(t[j - 1] == s[j]);
        }
        lemma_first_nl_at(t, j - 1);
    }
}

/// The lines of `s`, split at every newline byte. A trailing run without a
/// final newline counts as a line; empty lines are kept.
pub open spec fn raw_lines(s: Seq<u8>) -> Seq<Seq<u8>>
    decreases s.len(),
{
    if s.len() == 0 {
        Seq::empty()
    } else {
        let i = first_nl(s) as int;
        if i >= s.len() {
            seq![s]
        } else {
            seq![s.subrange(0, i)] + raw_lines(s.subrange(i + 1, s.len() as int))
        }
    }
}

/// Drops the empty lines, keeping the order of the rest.
pub open spec fn keep_nonempty(ls: Seq<Seq<u8>>) -> Seq<Seq<u8>>
    decreases ls.len(),
{
    if ls.len() == 0 {
        Seq::empty()
    } else {
        let rest = keep_nonempty(ls.drop_first());
        if ls[0].len() > 0 {
            seq![ls[0]] + rest
        } else {
            rest
        }
    }
}

/// The nonempty lines of a ledger buffer, in order.
pub open spec fn nonempty_lines(s: Seq<u8>) -> Seq<Seq<u8>> {
    keep_nonempty(raw_lines(s))
}

/// Index of the first newline at or after `from`, or the length when there
/// is none.
fn find_nl(content: &Vec<u8>, from: usize) -> (r: usize)
    requires
        from <= content@.len(),
    ensures
        from <= r <= content@.len(),
        forall|k: int| from <= k < r ==> content@[k] != 10u8,
        r < content@.len() ==> content@[r as int] == 10u8,
{
    let mut j: usize = from;
    while j < content.len()
        invariant
            from <= j <= content@.len(),
            forall|k: int| from <= k < j ==> content@[k] != 10u8,
        decreases content@.len() - j,
    {
        if content[j] == 10 {
            return j;
        }
        j += 1;
    }
    j
}

/// Appends the line `name\n` to the ledger buffer. Nothing checks for a
/// prior entry: repeated installs leave duplicate lines.
pub fn record_installed(content: &mut Vec<u8>, name: &Vec<u8>)
    ensures
        final(content)@ == old(content)@ + name@ + seq![10u8],
{
    append_bytes(content, name);
    content.push(10);
    proof {
        assert(content@ =~= old(content)@ + name@ + seq![10u8]);
    }
}

/// Removes the first exact substring occurrence of `name` from the ledger
/// buffer; the buffer is unchanged when the name does not occur.
pub fn forget(content: &Vec<u8>, name: &Vec<u8>) -> (r: Vec<u8>)
    ensures
        r@ == remove_first_spec(content@, name@),
{
    remove_first(content, name)
}

/// All nonempty lines of the ledger buffer, in order.
pub fn list_all(content: &Vec<u8>) -> (r: Vec<Vec<u8>>)
    ensures
        r.deep_view() == nonempty_lines(content@),
{
    let mut out: Vec<Vec<u8>> = Vec::new();
    let mut pos: usize = 0;
    proof {
        assert(content@.subrange(0, content@.len() as int) =~= content@);
        assert(out.deep_view() =~= Seq::<Seq<u8>>::empty());
        assert(out.deep_view() + nonempty_lines(content@) =~= nonempty_lines(content@));
    }
    while pos < content.len()
        invariant
            pos <= content@.len(),
            nonempty_lines(content@) == out.deep_view() + nonempty_lines(
                content@.subrange(pos as int, content@.len() as int),
            ),
        decreases content@.len() - pos,
    {
        let ghost out0 = out.deep_view();
        let ghost suffix = content@.subrange(pos as int, content@.len() as int);
        let nl = find_nl(content, pos);
        let line = copy_range(content, pos, nl);
        proof {
            assert(forall|k: int|
                0 <= k < nl - pos ==> suffix[k] == content@[pos + k] && suffix[k] != 10u8);
            if nl < content@.len() {
                assert(suffix[nl - pos] == content@[nl as int]);
            }
            lemma_first_nl_at(suffix, nl - pos);
            assert(line@ =~= suffix.subrange(0, nl - pos));
        }
        if nl >= content.len() {
            proof {
                assert(suffix.len() > 0);
                assert(first_nl(suffix) == suffix.len());
                assert(raw_lines(suffix) == seq![suffix]);
                assert(line@ =~= suffix);
                assert(seq![suffix].drop_first() =~= Seq::<Seq<u8>>::empty());
                assert(keep_nonempty(Seq::<Seq<u8>>::empty()) == Seq::<Seq<u8>>::empty());
                assert(keep_nonempty(seq![suffix]) =~= seq![suffix]);
            }
            out.push(line);
            proof {
                assert(out.deep_view() =~~= out0 + seq![suffix]);
                assert(content@.subrange(content@.len() as int, content@.len() as int)
                    =~= Seq::<u8>::empty());
                assert(raw_lines(Seq::<u8>::empty()) == Seq::<Seq<u8>>::empty());
                assert(out.deep_view() + nonempty_lines(Seq::<u8>::empty()) =~~= out0 + seq![
                    suffix,
                ]);
            }
            pos = content.len();
        } else {
            let ghost i = nl - pos;
            let ghost suffix2 = content@.subrange(nl + 1, content@.len() as int);
            proof {
                assert(suffix.len() > 0);
                assert(first_nl(suffix) == i);
                assert(suffix.subrange(i + 1, suffix.len() as int) =~= suffix2);
                assert(raw_lines(suffix) == seq![line@] + raw_lines(suffix2));
                let ls = seq![line@] + raw_lines(suffix2);
                assert(ls.drop_first() =~= raw_lines(suffix2));
                assert(ls[0] == line@);
                if line@.len() > 0 {
                    assert(keep_nonempty(ls) == seq![line@] + keep_nonempty(raw_lines(suffix2)));
                } else {
                    assert(keep_nonempty(ls) == keep_nonempty(raw_lines(suffix2)));
                }
            }
            if line.len() > 0 {
                out.push(line);
                proof {
                    assert(out.deep_view() =~~= out0 + seq![line@]);
                    assert(out.deep_view() + nonempty_lines(suffix2) =~~= out0 + nonempty_lines(
                        suffix,
                    ));
                }
            } else {
                proof {
                    assert(out.deep_view() + nonempty_lines(suffix2) =~~= out0 + nonempty_lines(
                        suffix,
                    ));
                }
            }
            pos = nl + 1;
        }
    }
    proof {
        let tail = content@.subrange(pos as int, content@.len() as int);
        assert(tail =~= Seq::<u8>::empty());
        assert(raw_lines(Seq::<u8>::empty()) == Seq::<Seq<u8>>::empty());
        assert(keep_nonempty(Seq::<Seq<u8>>::empty()) == Seq::<Seq<u8>>::empty());
        assert(out.deep_view() + nonempty_lines(tail) =~= out.deep_view());
    }
    out
}

} // verus!
