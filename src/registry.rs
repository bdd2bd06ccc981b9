use vstd::prelude::*;

verus! {

/// A 32-byte word: a service handle or a contract handle.
pub type Word = [u8; 32];

/// A 20-byte account address.
pub type Address = [u8; 20];

/// One registration: the contract handle that keys it, the caller that owns
/// it and the external service handle it stands for.
#[derive(Clone, Copy, Debug)]
pub struct Binding {
    pub contract_handle: Word,
    pub owner: Address,
    pub service_handle: Word,
}

/// What a registration holds, seen mathematically: (owner, service handle).
pub type BindingView = (Seq<u8>, Seq<u8>);

/// The registry as a map: later registrations of a key shadow earlier ones.
pub open spec fn bindings_map(s: Seq<Binding>) -> Map<Seq<u8>, BindingView>
    decreases s.len(),
{
    if s.len() == 0 {
        Map::empty()
    } else {
        let b = s.last();
        bindings_map(s.drop_last()).insert(b.contract_handle@, (b.owner@, b.service_handle@))
    }
}

/// The table from contract handles to their owner and service handle.
/// Entries are added and never removed, so the table grows for as long as it
/// lives; registering a handle again adds an entry that shadows the earlier
/// one.
pub struct ServicesManager {
    pub service_handles: Vec<Binding>,
}

impl View for ServicesManager {
    type V = Map<Seq<u8>, BindingView>;

    open spec fn view(&self) -> Map<Seq<u8>, BindingView> {
        bindings_map(self.service_handles@)
    }
}

/// The registration that `lookup` grants: present, and owned by `caller`.
pub open spec fn granted(m: Map<Seq<u8>, BindingView>, contract_handle: Seq<u8>, caller: Seq<u8>) -> bool {
    m.contains_key(contract_handle) && m[contract_handle].0 == caller
}

/// Byte equality whose running time does not depend on where the inputs differ.
pub fn constant_time_eq(a: &Address, b: &Address) -> (r: bool)
    ensures
        r == (a@ == b@),
{
    let mut diff: u8 = 0;
    let mut i: usize = 0;
    while i < 20
        invariant
            0 <= i <= 20,
            a@.len() == 20,
            b@.len() == 20,
            (diff == 0) == (forall|j: int| 0 <= j < i ==> a@[j] == b@[j]),
        decreases 20 - i,
    {
        let x: u8 = a[i];
        let y: u8 = b[i];
        let d: u8 = diff;
        let nd: u8 = d | (x ^ y);
        assert((nd == 0) == (d == 0 && x == y)) by (bit_vector)
            requires
                nd == d | (x ^ y),
        ;
        diff = nd;
        i = i + 1;
    }
    if diff == 0 {
        assert(a@ =~= b@);
    }
    diff == 0
}

/// Equality of two words.
pub fn words_eq(a: &Word, b: &Word) -> (r: bool)
    ensures
        r == (a@ == b@),
{
    let mut i: usize = 0;
    while i < 32
        invariant
            0 <= i <= 32,
            a@.len() == 32,
            b@.len() == 32,
            forall|j: int| 0 <= j < i ==> a@[j] == b@[j],
        decreases 32 - i,
    {
        if a[i] != b[i] {
            return false;
        }
        i = i + 1;
    }
    assert(a@ =~= b@);
    true
}

proof fn lemma_shadowed(s: Seq<Binding>, i: int, k: Seq<u8>)
    requires
        0 <= i <= s.len(),
        forall|j: int| i <= j < s.len() ==> s[j].contract_handle@ != k,
    ensures
        bindings_map(s).contains_key(k) == bindings_map(s.take(i)).contains_key(k),
        bindings_map(s).contains_key(k) ==> bindings_map(s)[k] == bindings_map(s.take(i))[k],
    decreases s.len() - i,
{
    if i < s.len() {
        let t = s.drop_last();
        assert(t.take(i) =~= s.take(i));
        lemma_shadowed(t, i, k);
    } else {
        assert(s.take(i) =~= s);
    }
}

impl ServicesManager {
    /// An empty registry.
    pub fn new() -> (r: Self)
        ensures
            r@ == Map::<Seq<u8>, BindingView>::empty(),
    {
        ServicesManager { service_handles: Vec::new() }
    }

    /// Binds `contract_handle` to `(owner, service_handle)`, replacing any
    /// earlier binding of the same handle.
    pub fn register(&mut self, contract_handle: &Word, owner: &Address, service_handle: &Word)
        ensures
            final(self)@ == old(self)@.insert(contract_handle@, (owner@, service_handle@)),
    {
        let b = Binding {
            contract_handle: *contract_handle,
            owner: *owner,
            service_handle: *service_handle,
        };
        self.service_handles.push(b);
        proof {
            assert(final(self).service_handles@.drop_last() =~= old(self).service_handles@);
        }
    }

    /// The service handle bound to `contract_handle`, if `caller` owns that
    /// binding; `None` for an unknown handle and for a foreign caller alike.
    pub fn lookup(&self, contract_handle: &Word, caller: &Address) -> (r: Option<Word>)
        ensures
            r is Some <==> granted(self@, contract_handle@, caller@),
            r is Some ==> r->0@ == self@[contract_handle@].1,
    {
        let n = self.service_handles.len();
        let mut i: usize = n;
        while i > 0
            invariant
                i <= n,
                n == self.service_handles@.len(),
                forall|j: int| i <= j < n ==> self.service_handles@[j].contract_handle@ != contract_handle@,
            decreases i,
        {
            let b = &self.service_handles[i - 1];
            if words_eq(&b.contract_handle, contract_handle) {
                proof {
                    let s = self.service_handles@;
                    lemma_shadowed(s, i as int, contract_handle@);
                    assert(s.take(i as int).drop_last() =~= s.take(i - 1));
                }
                if constant_time_eq(&b.owner, caller) {
                    return Some(b.service_handle);
                } else {
                    return None;
                }
            }
            i = i - 1;
        }
        proof {
            lemma_shadowed(self.service_handles@, 0, contract_handle@);
        }
        None
    }
}

} // verus!
