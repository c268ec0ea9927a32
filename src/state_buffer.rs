use vstd::prelude::*;

verus! {

/// The flattened state vector of a problem, which the problem lends to the
/// integrator for the length of one integration and gets back at its end.
///
/// While lent out the buffer is empty; its dimension stays fixed for the
/// problem's whole life.
pub struct StateBuffer<T> {
    buffer: Option<Vec<T>>,
    dim: usize,
}

impl<T> View for StateBuffer<T> {
    /// The state held, or `None` while it is lent out.
    type V = Option<Seq<T>>;

    closed spec fn view(&self) -> Option<Seq<T>> {
        match self.buffer {
            Some(v) => Some(v@),
            None => None,
        }
    }
}

impl<T> StateBuffer<T> {
    #[verifier::type_invariant]
    closed spec fn inv(&self) -> bool {
        match self.buffer {
            Some(v) => v@.len() == self.dim,
            None => true,
        }
    }

    /// The number of entries of the state vector.
    pub closed spec fn dim(&self) -> nat {
        self.dim as nat
    }

    /// Holds the given state vector, whose length fixes the dimension.
    pub fn new(state: Vec<T>) -> (r: Self)
        ensures
            r@ == Some(state@),
            r.dim() == state@.len(),
    {
        let dim = state.len();
        StateBuffer { buffer: Some(state), dim }
    }

    /// Whether the state is held (not lent out).
    pub fn is_held(&self) -> (r: bool)
        ensures
            r == self@ is Some,
    {
        self.buffer.is_some()
    }

    /// The number of entries of the state vector.
    pub fn dimension(&self) -> (r: usize)
        ensures
            r == self.dim(),
    {
        self.dim
    }

    /// Lends the state out: the buffer is empty until it is restored.
    pub fn take(&mut self) -> (r: Vec<T>)
        requires
            old(self)@ is Some,
        ensures
            r@ == old(self)@->0,
            r@.len() == old(self).dim(),
            final(self)@ is None,
            final(self).dim() == old(self).dim(),
    {
        proof {
            use_type_invariant(&*self);
        }
        let mut held = StateBuffer { buffer: None, dim: self.dim };
        std::mem::swap(self, &mut held);
        match held.buffer {
            Some(v) => v,
            None => Vec::new(),
        }
    }

    /// Takes back a lent-out state of the buffer's dimension.
    pub fn restore(&mut self, state: Vec<T>)
        requires
            old(self)@ is None,
            state@.len() == old(self).dim(),
        ensures
            final(self)@ == Some(state@),
            final(self).dim() == old(self).dim(),
    {
        self.buffer = Some(state);
    }

    /// Read access to the state held.
    pub fn state(&self) -> (r: &Vec<T>)
        requires
            self@ is Some,
        ensures
            r@ == self@->0,
            r@.len() == self.dim(),
    {
        proof {
            use_type_invariant(self);
        }
        self.buffer.as_ref().unwrap()
    }
}

impl<T: Copy> StateBuffer<T> {
    /// A copy of the state held.
    pub fn clone_state(&self) -> (r: Vec<T>)
        requires
            self@ is Some,
        ensures
            r@ == self@->0,
    {
        let v = self.state();
        let mut r: Vec<T> = Vec::new();
        let len = v.len();
        for k in 0..len
            invariant
                len == v@.len(),
                r@ == v@.subrange(0, k as int),
        {
            r.push(v[k]);
            assert(v@.subrange(0, k + 1) =~= v@.subrange(0, k as int).push(v@[k as int]));
        }
        assert(v@.subrange(0, len as int) =~= v@);
        r
    }

    /// Overwrites the state held with a copy of `state`, which must have the
    /// buffer's dimension.
    pub fn set_state(&mut self, state: &[T])
        requires
            old(self)@ is Some,
            state@.len() == old(self).dim(),
        ensures
            final(self)@ == Some(state@),
            final(self).dim() == old(self).dim(),
    {
        let mut v = self.take();
        let len = state.len();
        for k in 0..len
            invariant
                len == state@.len(),
                v@.len() == len,
                forall|j: int| 0 <= j < k ==> v@[j] == state@[j],
        {
            v.set(k, state[k]);
        }
        assert(v@ =~= state@);
        self.restore(v);
    }
}

} // verus!
