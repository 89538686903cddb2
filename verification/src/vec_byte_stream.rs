//! A byte stream that hands out a fixed list of `Bytes` chunks, front to back,
//! and always knows how many bytes are still to come.

use vstd::prelude::*;
use std::collections::VecDeque;
use bytes::Bytes;

verus! {

broadcast use vstd::std_specs::vecdeque::group_vec_dequeue_axioms;

#[verifier::external_type_specification]
#[verifier::external_body]
pub struct ExBytes(Bytes);

/// The bytes that a `Bytes` buffer holds, front to back.
pub uninterp spec fn bytes_contents(b: Bytes) -> Seq<u8>;

/// `bytes::Bytes::len`: the number of bytes in the buffer.
#[verifier::external_body]
pub(crate) fn bytes_len(b: &Bytes) -> (n: usize)
    ensures
        n == bytes_contents(*b).len(),
{
    b.len()
}

/// `bytes::Bytes::from(Vec<u8>)`: a buffer that holds exactly the vector's bytes.
#[verifier::external_body]
pub(crate) fn bytes_from_vec(v: Vec<u8>) -> (b: Bytes)
    ensures
        bytes_contents(b) == v@,
{
    Bytes::from(v)
}

/// The number of bytes held by all the chunks together.
pub open spec fn total_len(chunks: Seq<Bytes>) -> nat
    decreases chunks.len(),
{
    if chunks.len() == 0 {
        0
    } else {
        bytes_contents(chunks[0]).len() + total_len(chunks.drop_first())
    }
}

/// A prefix holds no more bytes than the whole list.
pub proof fn lemma_total_len_prefix(chunks: Seq<Bytes>, n: int)
    requires
        0 <= n <= chunks.len(),
    ensures
        total_len(chunks.take(n)) <= total_len(chunks),
    decreases chunks.len(),
{
    if n > 0 {
        assert(chunks.take(n).drop_first() =~= chunks.drop_first().take(n - 1));
        lemma_total_len_prefix(chunks.drop_first(), n - 1);
    }
}

/// Appending a chunk adds its length to the total.
pub proof fn lemma_total_len_push(chunks: Seq<Bytes>, b: Bytes)
    ensures
        total_len(chunks.push(b)) == total_len(chunks) + bytes_contents(b).len(),
    decreases chunks.len(),
{
    if chunks.len() > 0 {
        assert(chunks.push(b).drop_first() =~= chunks.drop_first().push(b));
        lemma_total_len_push(chunks.drop_first(), b);
    } else {
        assert(chunks.push(b).drop_first() =~= Seq::<Bytes>::empty());
        assert(total_len(chunks.push(b).drop_first()) == 0);
    }
}


/// Taking the front chunk lowers the remaining length by exactly its length.
pub proof fn law_next_chunk_remaining(chunks: Seq<Bytes>)
    requires
        chunks.len() > 0,
    ensures
        total_len(chunks.drop_first()) == total_len(chunks) - bytes_contents(chunks[0]).len(),
{
}

/// A stream over a fixed list of byte chunks. Besides the chunks still to
/// come it keeps their total length, so that the remaining length is known
/// without walking the list.
pub struct VecByteStream {
    queue: VecDeque<Bytes>,
    remaining_bytes: usize,
}

impl View for VecByteStream {
    type V = Seq<Bytes>;

    /// The chunks still to come, front first.
    closed spec fn view(&self) -> Seq<Bytes> {
        self.queue@
    }
}

impl VecByteStream {
    /// The kept count is the total length of the chunks still to come.
    #[verifier::type_invariant]
    spec fn count_matches(self) -> bool {
        self.remaining_bytes == total_len(self.queue@)
    }

    /// A stream over the chunks of `v`, in order.
    ///
    /// Their total length must fit in a `usize`; `try_new` checks that.
    pub fn new(v: Vec<Bytes>) -> (s: Self)
        requires
            total_len(v@) <= usize::MAX,
        ensures
            s@ == v@,
    {
        let ghost all = v@;
        let mut total: usize = 0;
        let mut i: usize = 0;
        while i < v.len()
            invariant
                v@ == all,
                i <= v.len(),
                total == total_len(all.take(i as int)),
                total_len(all) <= usize::MAX,
            decreases v.len() - i,
        {
            proof {
                lemma_total_len_push(all.take(i as int), all[i as int]);
                assert(all.take(i as int).push(all[i as int]) =~= all.take(i + 1));
                lemma_total_len_prefix(all, i + 1);
            }
            total = total + bytes_len(&v[i]);
            i = i + 1;
        }
        assert(all.take(v.len() as int) =~= all);
        let mut rest = v;
        let mut queue: VecDeque<Bytes> = VecDeque::new();
        while rest.len() > 0
            invariant
                rest@ + queue@ == all,
            decreases rest.len(),
        {
            let ghost before = rest@;
            let b = rest.pop().unwrap();
            queue.push_front(b);
            assert(before =~= rest@.push(b));
            assert(rest@ + queue@ =~= before + (queue@.drop_first()));
        }
        assert(queue@ =~= all);
        VecByteStream { queue, remaining_bytes: total }
    }

    /// A stream over the chunks of `v`, or `None` where their total length
    /// does not fit in a `usize`.
    pub fn try_new(v: Vec<Bytes>) -> (s: Option<Self>)
        ensures
            match s {
                Some(s) => s@ == v@,
                None => total_len(v@) > usize::MAX,
            },
    {
        let ghost all = v@;
        let mut total: usize = 0;
        let mut i: usize = 0;
        while i < v.len()
            invariant
                v@ == all,
                i <= v.len(),
                total == total_len(all.take(i as int)),
            decreases v.len() - i,
        {
            proof {
                lemma_total_len_push(all.take(i as int), all[i as int]);
                assert(all.take(i as int).push(all[i as int]) =~= all.take(i + 1));
            }
            match total.checked_add(bytes_len(&v[i])) {
                Some(t) => total = t,
                None => {
                    proof { lemma_total_len_prefix(all, i + 1); }
                    return None;
                }
            }
            i = i + 1;
        }
        assert(all.take(v.len() as int) =~= all);
        Some(Self::new(v))
    }

    /// The number of bytes still to come.
    pub fn exact_remaining_length(&self) -> (n: usize)
        ensures
            n == total_len(self@),
    {
        proof { use_type_invariant(self); }
        self.remaining_bytes
    }

    /// Takes the next chunk off the front, or gives `None` once all have
    /// been handed out.
    pub fn next_chunk(&mut self) -> (b: Option<Bytes>)
        ensures
            match b {
                Some(x) => {
                    &&& old(self)@.len() > 0
                    &&& x == old(self)@[0]
                    &&& final(self)@ == old(self)@.drop_first()
                },
                None => old(self)@.len() == 0 && final(self)@ == old(self)@,
            },
    {
        let mut taken = VecByteStream { queue: VecDeque::new(), remaining_bytes: 0 };
        std::mem::swap(self, &mut taken);
        proof { use_type_invariant(&taken); }
        let VecByteStream { mut queue, remaining_bytes: remaining } = taken;
        let ghost before = queue@;
        match queue.pop_front() {
            Some(b) => {
                assert(queue@ =~= before.drop_first());
                let n = bytes_len(&b);
                *self = VecByteStream { queue, remaining_bytes: remaining - n };
                Some(b)
            },
            None => {
                *self = VecByteStream { queue, remaining_bytes: remaining };
                None
            },
        }
    }

    /// The number of chunks still to come, as lower and upper bound.
    pub fn size_hint(&self) -> (h: (usize, Option<usize>))
        ensures
            h.0 == self@.len(),
            h.1 == Some(h.0),
    {
        let cnt = self.queue.len();
        (cnt, Some(cnt))
    }
}

} // verus!
