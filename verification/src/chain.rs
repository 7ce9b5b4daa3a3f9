use vstd::prelude::*;

verus! {

/// The character sequences of a list of names.
pub open spec fn name_views(names: Seq<String>) -> Seq<Seq<char>> {
    Seq::new(names.len(), |i: int| names[i]@)
}

/// The outbounds that a connection runs through, in the order in which it
/// enters them.
#[derive(Debug)]
pub struct ProxyChain {
    names: Vec<String>,
}

impl View for ProxyChain {
    type V = Seq<Seq<char>>;

    closed spec fn view(&self) -> Seq<Seq<char>> {
        name_views(self.names@)
    }
}

impl ProxyChain {
    pub fn new() -> (chain: Self)
        ensures
            chain@ == Seq::<Seq<char>>::empty(),
    {
        let chain = ProxyChain { names: Vec::new() };
        assert(chain@ =~= Seq::<Seq<char>>::empty());
        chain
    }

    /// Puts `name` at the end of the chain.
    pub fn push(&mut self, name: String)
        ensures
            final(self)@ == old(self)@.push(name@),
    {
        self.names.push(name);
        assert(self@ =~= old(self)@.push(name@));
    }

    pub fn len(&self) -> (n: usize)
        ensures
            n == self@.len(),
    {
        self.names.len()
    }

    /// The name at position `i`.
    pub fn get(&self, i: usize) -> (name: &str)
        requires
            i < self@.len(),
        ensures
            name@ == self@[i as int],
    {
        self.names[i].as_str()
    }

    /// The names, first to last.
    pub fn names(&self) -> (res: Vec<String>)
        ensures
            name_views(res@) == self@,
    {
        let mut res: Vec<String> = Vec::new();
        let mut i: usize = 0;
        while i < self.names.len()
            invariant
                i <= self.names.len(),
                res.len() == i,
                forall|j: int| 0 <= j < i ==> (#[trigger] res@[j])@ == self.names@[j]@,
            decreases self.names.len() - i,
        {
            res.push(self.names[i].clone());
            i = i + 1;
        }
        assert(name_views(res@) =~= self@);
        res
    }
}

impl Clone for ProxyChain {
    fn clone(&self) -> (res: Self)
        ensures
            res@ == self@,
    {
        ProxyChain { names: self.names() }
    }
}

impl Default for ProxyChain {
    fn default() -> (chain: Self)
        ensures
            chain@ == Seq::<Seq<char>>::empty(),
    {
        ProxyChain::new()
    }
}

/// A stream that knows the chain of outbounds it was set up through.
pub trait ChainedStream {
    /// The chain as a sequence of names.
    spec fn chain_view(&self) -> Seq<Seq<char>>;

    fn chain(&self) -> (res: &ProxyChain)
        ensures
            res@ == self.chain_view(),
    ;

    fn append_to_chain(&mut self, name: &str)
        ensures
            final(self).chain_view() == old(self).chain_view().push(name@),
    ;
}

/// A stream together with its chain, which starts empty.
#[derive(Debug)]
pub struct ChainedStreamWrapper<T> {
    inner: T,
    chain: ProxyChain,
}

impl<T> ChainedStreamWrapper<T> {
    /// The stream that is wrapped.
    pub closed spec fn inner_view(&self) -> T {
        self.inner
    }

    pub fn new(inner: T) -> (res: Self)
        ensures
            res.inner_view() == inner,
            res.chain_view() == Seq::<Seq<char>>::empty(),
    {
        Self { inner, chain: ProxyChain::default() }
    }

    pub fn inner(&self) -> (res: &T)
        ensures
            *res == self.inner_view(),
    {
        &self.inner
    }

    pub fn inner_mut(&mut self) -> (res: &mut T)
        ensures
            *res == old(self).inner_view(),
            final(self).inner_view() == *final(res),
            final(self).chain_view() == old(self).chain_view(),
    {
        &mut self.inner
    }

    pub fn into_inner(self) -> (res: T)
        ensures
            res == self.inner_view(),
    {
        self.inner
    }
}

impl<T> ChainedStream for ChainedStreamWrapper<T> {
    closed spec fn chain_view(&self) -> Seq<Seq<char>> {
        self.chain@
    }

    fn chain(&self) -> (res: &ProxyChain) {
        &self.chain
    }

    fn append_to_chain(&mut self, name: &str) {
        self.chain.push(name.to_owned());
    }
}

} // verus!
