use vstd::prelude::*;

verus! {

/// Two serialized proofs differ: `offset` is the first byte position at which they
/// disagree, or the length of the shorter one when it is a proper prefix of the other.
#[derive(Clone, Copy, Debug, PartialEq, Eq, Structural)]
pub struct ParityMismatch {
    pub offset: usize,
    pub left_len: usize,
    pub right_len: usize,
}

/// `i` is the first position at which `a` and `b` differ.
pub open spec fn is_first_difference(a: Seq<u8>, b: Seq<u8>, i: int) -> bool {
    &&& 0 <= i <= a.len()
    &&& i <= b.len()
    &&& a.subrange(0, i) == b.subrange(0, i)
    &&& (i == a.len() || i == b.len() || a[i] != b[i])
    &&& !(i == a.len() && i == b.len())
}

/// The first byte position at which `a` and `b` differ; `None` when they are equal.
pub fn first_difference(a: &Vec<u8>, b: &Vec<u8>) -> (r: Option<usize>)
    ensures
        r is None <==> a@ == b@,
        r matches Some(i) ==> is_first_difference(a@, b@, i as int),
{
    let n: usize = if a.len() < b.len() { a.len() } else { b.len() };
    let mut i: usize = 0;
    while i < n
        invariant
            n <= a.len(),
            n <= b.len(),
            n == a.len() || n == b.len(),
            i <= n,
            a@.subrange(0, i as int) == b@.subrange(0, i as int),
        decreases n - i,
    {
        if a[i] != b[i] {
            assert(a@[i as int] != b@[i as int]);
            return Some(i);
        }
        assert(a@.subrange(0, i + 1) == a@.subrange(0, i as int).push(a@[i as int]));
        assert(b@.subrange(0, i + 1) == b@.subrange(0, i as int).push(b@[i as int]));
        i = i + 1;
    }
    if a.len() == b.len() {
        assert(a@ == a@.subrange(0, n as int));
        assert(b@ == b@.subrange(0, n as int));
        None
    } else {
        Some(n)
    }
}

/// Holds two serialized proofs to byte equality, reporting where they first diverge.
pub fn check_parity(a: &Vec<u8>, b: &Vec<u8>) -> (r: Result<(), ParityMismatch>)
    ensures
        r is Ok <==> a@ == b@,
        r matches Err(m) ==> {
            &&& is_first_difference(a@, b@, m.offset as int)
            &&& m.left_len == a.len()
            &&& m.right_len == b.len()
        },
{
    match first_difference(a, b) {
        None => Ok(()),
        Some(offset) => Err(ParityMismatch { offset, left_len: a.len(), right_len: b.len() }),
    }
}

} // verus!
