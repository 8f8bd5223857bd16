//! Byte-sequence primitives: equality, concatenation, substring search and
//! removal of the first occurrence of a needle. The ledger and the hook
//! splicer are both specified in terms of these.

use vstd::prelude::*;

verus! {

/// The needle `n` occurs in the haystack `h` at position `i`.
pub open spec fn is_match_at(h: Seq<u8>, n: Seq<u8>, i: int) -> bool {
    &&& 0 <= i
    &&& i + n.len() <= h.len()
    &&& h.subrange(i, i + n.len() as int) == n
}

/// The needle `n` occurs somewhere in the haystack `h`.
pub open spec fn contains_seq(h: Seq<u8>, n: Seq<u8>) -> bool {
    exists|i: int| is_match_at(h, n, i)
}

/// `i` is the leftmost position at which `n` occurs in `h`.
pub open spec fn is_first_match(h: Seq<u8>, n: Seq<u8>, i: int) -> bool {
    &&& is_match_at(h, n, i)
    &&& forall|j: int| 0 <= j < i ==> !is_match_at(h, n, j)
}

/// There is at most one leftmost occurrence.
pub proof fn lemma_first_match_unique(h: Seq<u8>, n: Seq<u8>, i: int, j: int)
    requires
        is_first_match(h, n, i),
        is_first_match(h, n, j),
    ensures
        i == j,
{
    if i < j {
        assert(!is_match_at(h, n, i));
    } else if j < i {
        assert(!is_match_at(h, n, j));
    }
}

/// `h` with the `len` bytes starting at `i` cut out.
pub open spec fn splice_out(h: Seq<u8>, i: int, len: int) -> Seq<u8> {
    h.subrange(0, i) + h.subrange(i + len, h.len() as int)
}

/// `h` with the first occurrence of `n` removed; `h` itself when `n` does
/// not occur.
pub open spec fn remove_first_spec(h: Seq<u8>, n: Seq<u8>) -> Seq<u8> {
    if contains_seq(h, n) {
        let i = choose|i: int| is_first_match(h, n, i);
        splice_out(h, i, n.len() as int)
    } else {
        h
    }
}

/// Byte-for-byte equality of two buffers.
pub fn bytes_eq(a: &Vec<u8>, b: &Vec<u8>) -> (r: bool)
    ensures
        r == (a@ == b@),
{
    if a.len() != b.len() {
        return false;
    }
    let mut j: usize = 0;
    while j < a.len()
        invariant
            a@.len() == b@.len(),
            0 <= j <= a@.len(),
            forall|k: int| 0 <= k < j ==> a@[k] == b@[k],
        decreases a@.len() - j,
    {
        if a[j] != b[j] {
            return false;
        }
        j += 1;
    }
    proof {
        assert(a@ =~= b@);
    }
    true
}

/// Appends all of `src` to `dst`.
pub fn append_bytes(dst: &mut Vec<u8>, src: &Vec<u8>)
    ensures
        final(dst)@ == old(dst)@ + src@,
{
    proof {
        assert(dst@ =~= old(dst)@ + src@.subrange(0, 0));
    }
    let mut j: usize = 0;
    while j < src.len()
        invariant
            0 <= j <= src@.len(),
            dst@ == old(dst)@ + src@.subrange(0, j as int),
        decreases src@.len() - j,
    {
        let b = src[j];
        dst.push(b);
        proof {
            assert(dst@ =~= old(dst)@ + src@.subrange(0, j + 1));
        }
        j += 1;
    }
    proof {
        assert(src@.subrange(0, src@.len() as int) =~= src@);
    }
}

/// A fresh copy of `src[from..to]`.
pub fn copy_range(src: &Vec<u8>, from: usize, to: usize) -> (r: Vec<u8>)
    requires
        from <= to <= src@.len(),
    ensures
        r@ == src@.subrange(from as int, to as int),
{
    let mut r: Vec<u8> = Vec::new();
    let mut j: usize = from;
    proof {
        assert(r@ =~= src@.subrange(from as int, from as int));
    }
    while j < to
        invariant
            from <= j <= to <= src@.len(),
            r@ == src@.subrange(from as int, j as int),
        decreases to - j,
    {
        let b = src[j];
        r.push(b);
        proof {
            assert(r@ =~= src@.subrange(from as int, j + 1));
        }
        j += 1;
    }
    r
}

/// A fresh copy of the whole buffer.
pub fn clone_bytes(src: &Vec<u8>) -> (r: Vec<u8>)
    ensures
        r@ == src@,
{
    let r = copy_range(src, 0, src.len());
    proof {
        assert(src@.subrange(0, src@.len() as int) =~= src@);
    }
    r
}

/// Does `n` occur in `h` starting at `i`?
fn match_at(h: &Vec<u8>, n: &Vec<u8>, i: usize) -> (r: bool)
    requires
        i + n@.len() <= h@.len(),
    ensures
        r == is_match_at(h@, n@, i as int),
{
    let h_len = h.len();
    let n_len = n.len();
    let mut j: usize = 0;
    while j < n_len
        invariant
            h_len == h@.len(),
            n_len == n@.len(),
            i + n_len <= h_len,
            0 <= j <= n_len,
            forall|k: int| 0 <= k < j ==> h@[i + k] == n@[k],
        decreases n_len - j,
    {
        if h[i + j] != n[j] {
            proof {
                assert(!is_match_at(h@, n@, i as int)) by {
                    if is_match_at(h@, n@, i as int) {
                        assert(h@.subrange(i as int, i + n@.len() as int)[j as int] == n@[j as int]);
                    }
                }
            }
            return false;
        }
        j += 1;
    }
    proof {
        assert(h@.subrange(i as int, i + n@.len() as int) =~= n@);
    }
    true
}

/// The leftmost position at which `n` occurs in `h`, if any.
pub fn find_first(h: &Vec<u8>, n: &Vec<u8>) -> (r: Option<usize>)
    ensures
        match r {
            Some(i) => is_first_match(h@, n@, i as int),
            None => !contains_seq(h@, n@),
        },
{
    if n.len() > h.len() {
        proof {
            assert forall|i: int| !is_match_at(h@, n@, i) by {}
        }
        return None;
    }
    let bound = h.len() - n.len();
    let mut i: usize = 0;
    loop
        invariant
            n@.len() <= h@.len(),
            bound == h@.len() - n@.len(),
            0 <= i <= bound,
            forall|j: int| 0 <= j < i ==> !is_match_at(h@, n@, j),
        decreases bound - i,
    {
        if match_at(h, n, i) {
            return Some(i);
        }
        if i == bound {
            proof {
                assert forall|j: int| !is_match_at(h@, n@, j) by {
                    if j > bound {
                        assert(j + n@.len() > h@.len());
                    }
                }
            }
            return None;
        }
        i += 1;
    }
}

/// Removes the first occurrence of `n` from `h`; returns `h` unchanged when
/// `n` does not occur.
pub fn remove_first(h: &Vec<u8>, n: &Vec<u8>) -> (r: Vec<u8>)
    ensures
        r@ == remove_first_spec(h@, n@),
{
    match find_first(h, n) {
        None => {
            clone_bytes(h)
        }
        Some(i) => {
            let h_len = h.len();
            proof {
                assert(i + n@.len() <= h_len);
            }
            let mut r = copy_range(h, 0, i);
            let rest = copy_range(h, i + n.len(), h_len);
            append_bytes(&mut r, &rest);
            proof {
                assert(is_match_at(h@, n@, i as int));
                assert(contains_seq(h@, n@));
                let j = choose|j: int| is_first_match(h@, n@, j);
                lemma_first_match_unique(h@, n@, i as int, j);
                assert(r@ =~= splice_out(h@, i as int, n@.len() as int));
            }
            r
        }
    }
}

} // verus!
