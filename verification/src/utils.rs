//! A serializer over a borrowed buffer, and plain chat text.

use crate::protocol::SerializeErr;
use crate::types::{BaseComponent, TextComponent};
use vstd::prelude::*;

verus! {

/// Chat text without any styling.
pub fn text(content: &'static str) -> (r: TextComponent)
    ensures
        r.text@ == content@,
        r.base == BaseComponent::plain(),
{
    TextComponent { text: content.to_owned(), base: BaseComponent::default() }
}

/// Writes bytes into a borrowed buffer from its start onwards. The last
/// byte of the buffer is never written.
pub struct SliceSerializer<'a> {
    target: &'a mut [u8],
    at: usize,
}

impl<'a> SliceSerializer<'a> {
    /// The bytes written so far.
    pub closed spec fn written(&self) -> Seq<u8> {
        self.target@.take(self.at as int)
    }

    /// Length of the buffer underneath.
    pub closed spec fn capacity(&self) -> nat {
        self.target@.len()
    }

    /// What was written lies inside the buffer.
    pub closed spec fn wf(&self) -> bool {
        self.at <= self.target@.len()
    }

    /// A serializer that has written nothing into `target` yet.
    pub fn create(target: &'a mut [u8]) -> (r: Self)
        ensures
            r.wf(),
            r.written() == Seq::<u8>::empty(),
            r.capacity() == old(target)@.len(),
    {
        Self { target, at: 0 }
    }

    /// Appends `data` if it leaves at least the last byte of the buffer
    /// free, and writes nothing otherwise.
    pub fn serialize_bytes(&mut self, data: &[u8]) -> (r: Result<(), SerializeErr>)
        requires
            old(self).wf(),
        ensures
            final(self).wf(),
            final(self).capacity() == old(self).capacity(),
            r is Ok <==> old(self).written().len() + data@.len() < old(self).capacity(),
            r is Ok ==> final(self).written() == old(self).written() + data@,
            r is Err ==> r == Err::<(), SerializeErr>(SerializeErr::BufferFull)
                && final(self).written() == old(self).written(),
    {
        let capacity: usize = self.target.len();
        if data.len() >= capacity - self.at {
            return Err(SerializeErr::BufferFull);
        }
        let ghost before = self.written();
        let start: usize = self.at;
        let mut i: usize = 0;
        while i < data.len()
            invariant
                i <= data@.len(),
                start + data@.len() < self.target@.len(),
                self.at == start,
                self.target@.len() == capacity,
                capacity == old(self).target@.len(),
                self.target@.take(start as int) == before,
                self.target@.subrange(start as int, start + i) == data@.take(i as int),
            decreases data@.len() - i,
        {
            self.target[start + i] = data[i];
            i = i + 1;
            assert(self.target@.take(start as int) =~= before);
            assert(self.target@.subrange(start as int, start + i) =~= data@.take(i as int));
        }
        self.at = start + data.len();
        assert(data@.take(i as int) =~= data@);
        assert(self.target@.take(self.at as int) =~= self.target@.take(start as int)
            + self.target@.subrange(start as int, start + i));
        Ok(())
    }

    /// The written part of the buffer.
    pub fn finish(self) -> (r: &'a [u8])
        requires
            self.wf(),
        ensures
            r@ == self.written(),
    {
        let r = vstd::slice::slice_subrange(self.target, 0, self.at);
        assert(r@ =~= self.written());
        r
    }
}

} // verus!
