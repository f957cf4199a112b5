use vstd::prelude::*;

verus! {

/// The stack after `push`: its top duplicated.
pub open spec fn pushed<M>(s: Seq<M>) -> Seq<M> {
    s.push(s.last())
}

/// The stack after `pop`: the top removed, unless it is the only entry.
pub open spec fn popped<M>(s: Seq<M>) -> Seq<M> {
    if s.len() > 1 {
        s.drop_last()
    } else {
        s
    }
}

/// A stack of composed transforms giving parent-relative coordinate frames.
/// It always holds at least one entry.
pub struct CoordinateStack<M> {
    data: Vec<M>,
}

impl<M> View for CoordinateStack<M> {
    type V = Seq<M>;

    closed spec fn view(&self) -> Seq<M> {
        self.data@
    }
}

impl<M: Copy> CoordinateStack<M> {
    pub open spec fn wf(&self) -> bool {
        self@.len() > 0
    }

    /// A stack holding only `identity`.
    pub fn new(identity: M) -> (r: Self)
        ensures
            r.wf(),
            r@ == seq![identity],
    {
        let mut data: Vec<M> = Vec::new();
        data.push(identity);
        let r = CoordinateStack { data };
        assert(r@ =~= seq![identity]);
        r
    }

    /// The current transform.
    pub fn peek(&self) -> (r: M)
        requires
            self.wf(),
        ensures
            r == self@.last(),
    {
        self.data[self.data.len() - 1]
    }

    /// Removes the current transform; the last one left is kept.
    pub fn pop(&mut self)
        requires
            old(self).wf(),
        ensures
            final(self).wf(),
            final(self)@ == popped(old(self)@),
    {
        if self.data.len() > 1 {
            self.data.pop();
        }
    }

    /// Enters a child frame: the current transform is duplicated on top.
    pub fn push(&mut self)
        requires
            old(self).wf(),
        ensures
            final(self).wf(),
            final(self)@ == pushed(old(self)@),
    {
        let top = self.data[self.data.len() - 1];
        self.data.push(top);
    }

    /// Replaces the current transform by `compose(top, delta)`, so that
    /// `delta` acts in the current local frame.
    pub fn apply_transformation<F: Fn(M, M) -> M>(&mut self, delta: M, compose: F)
        requires
            old(self).wf(),
            compose.requires((old(self)@.last(), delta)),
        ensures
            final(self).wf(),
            final(self)@.len() == old(self)@.len(),
            final(self)@.drop_last() == old(self)@.drop_last(),
            compose.ensures((old(self)@.last(), delta), final(self)@.last()),
    {
        let last = self.data.len() - 1;
        let top = self.data[last];
        let composed = compose(top, delta);
        self.data.set(last, composed);
        assert(self@.drop_last() =~= old(self)@.drop_last());
    }
}

/// Entering and leaving a child frame restores the stack, and so the current
/// transform; leaving the outermost frame changes nothing.
pub proof fn lemma_push_then_pop<M>(s: Seq<M>)
    requires
        s.len() > 0,
    ensures
        popped(pushed(s)) == s,
        popped(pushed(s)).last() == s.last(),
        s.len() == 1 ==> popped(s) == s,
        popped(s).len() > 0,
{
    assert(pushed(s).drop_last() =~= s);
}

} // verus!
