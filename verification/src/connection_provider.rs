//! Providing connections to servers and clients: the address rotation of client connections
//! and the error of a connection channel whose receiver is gone.

use vstd::prelude::*;

verus! {

/// Establishes client connections: when a host name resolves to several addresses, each new
/// attempt goes to the next address, and once they are all used the name is resolved again.
pub struct ClientConnection {}

/// Why a connection attempt failed.
#[derive(PartialEq, Eq, Debug, Clone, Copy)]
pub enum AttemptFailure {
    /// The host name could not be resolved.
    ResolutionFailed,
    /// The resolved address did not accept the connection.
    ConnectionFailed,
}

/// Whether a failed attempt may be retried: a name that cannot be resolved is a fatal error,
/// while an address that refuses the connection is a transient one (the next attempt goes to
/// the next address).
pub fn is_transient(failure: AttemptFailure) -> (transient: bool)
    ensures
        transient == (failure == AttemptFailure::ConnectionFailed),
{
    match failure {
        AttemptFailure::ResolutionFailed => false,
        AttemptFailure::ConnectionFailed => true,
    }
}

/// What the next connection attempt has to do first.
pub enum ConnectStep<AddressType> {
    /// Every resolved address was tried: the host name has to be resolved again.
    Resolve,
    /// Connect to this address.
    Connect(AddressType),
}

/// One connection attempt over the untried addresses `remaining` (the next one first): the
/// step to take and the addresses still untried afterwards.
pub open spec fn rotation_step<AddressType>(remaining: Seq<AddressType>) -> (ConnectStep<AddressType>, Seq<AddressType>) {
    if remaining.len() == 0 {
        (ConnectStep::Resolve, remaining)
    } else {
        (ConnectStep::Connect(remaining[0]), remaining.drop_first())
    }
}

/// The step taken by the attempt that follows `attempts` earlier ones over `remaining`.
pub open spec fn step_after<AddressType>(remaining: Seq<AddressType>, attempts: nat) -> ConnectStep<AddressType>
    decreases attempts,
{
    if attempts == 0 {
        rotation_step(remaining).0
    } else {
        step_after(rotation_step(remaining).1, (attempts - 1) as nat)
    }
}

/// After a resolution, successive attempts connect to the resolved addresses one by one, in
/// resolution order, and the attempt after the last of them resolves the host name again.
pub proof fn lemma_rotation_order<AddressType>(resolved: Seq<AddressType>, attempts: nat)
    requires
        attempts <= resolved.len(),
    ensures
        attempts < resolved.len() ==> step_after(resolved, attempts) == ConnectStep::Connect(resolved[attempts as int]),
        attempts == resolved.len() ==> step_after(resolved, attempts) is Resolve,
    decreases attempts,
{
    if attempts > 0 {
        lemma_rotation_order(resolved.drop_first(), (attempts - 1) as nat);
    }
}

/// One connection attempt over the untried addresses `remaining`, where `fresh` is what a new
/// resolution gives when none is left: the address connected to (`None` if the resolution gave
/// none) and the addresses still untried afterwards.
pub open spec fn attempt_step<AddressType>(remaining: Seq<AddressType>, fresh: Seq<AddressType>) -> (Option<AddressType>, Seq<AddressType>) {
    let pool = if remaining.len() == 0 { fresh } else { remaining };
    if pool.len() == 0 {
        (None, pool)
    } else {
        (Some(pool[0]), pool.drop_first())
    }
}

/// The untried addresses after `attempts` attempts that started with none, where every
/// resolution gives `resolved`.
pub open spec fn untried_after<AddressType>(resolved: Seq<AddressType>, attempts: nat) -> Seq<AddressType>
    decreases attempts,
{
    if attempts == 0 {
        Seq::<AddressType>::empty()
    } else {
        attempt_step(untried_after(resolved, (attempts - 1) as nat), resolved).1
    }
}

/// The address connected to by the attempt that follows `attempts` earlier ones, where every
/// resolution gives `resolved`.
pub open spec fn address_of_attempt<AddressType>(resolved: Seq<AddressType>, attempts: nat) -> Option<AddressType> {
    attempt_step(untried_after(resolved, attempts), resolved).0
}

/// When every resolution of the host name gives the same non-empty list of addresses, the
/// attempts go round it cyclically: attempt `k` (counting from 0) connects to address
/// `k mod n`, the list being resolved again each time it is exhausted.
pub proof fn lemma_cyclic_rotation<AddressType>(resolved: Seq<AddressType>, k: nat)
    requires
        resolved.len() > 0,
    ensures
        untried_after(resolved, k) == (if k % resolved.len() == 0 {
            Seq::<AddressType>::empty()
        } else {
            resolved.skip((k % resolved.len()) as int)
        }),
        address_of_attempt(resolved, k) == Some(resolved[(k % resolved.len()) as int]),
    decreases k,
{
    let n = resolved.len() as int;
    if k == 0 {
        assert(resolved.skip(0) =~= resolved);
    } else {
        let j = (k - 1) as nat;
        lemma_cyclic_rotation(resolved, j);
        let r: int = (j % resolved.len()) as int;
        let next: int = if r + 1 == n { 0 } else { r + 1 };
        let q: int = (j / resolved.len()) as int + (if r + 1 == n { 1int } else { 0int });
        assert(k % resolved.len() == next) by {
            vstd::arithmetic::div_mod::lemma_fundamental_div_mod(j as int, n);
            assert(k as int == q * n + next) by (nonlinear_arith)
                requires
                    j as int == n * (j as int / n) + r,
                    k == j + 1,
                    q == j as int / n + (if r + 1 == n { 1int } else { 0int }),
                    next == (if r + 1 == n { 0int } else { r + 1 }),
            ;
            vstd::arithmetic::div_mod::lemma_fundamental_div_mod_converse(k as int, n, q, next);
        }
        let pool = if r == 0 { resolved } else { resolved.skip(r) };
        assert(pool =~= resolved.skip(r));
        assert(pool.drop_first() =~= resolved.skip(r + 1));
        if r + 1 == n {
            assert(resolved.skip(r + 1) =~= Seq::<AddressType>::empty());
        }
    }
    let m: int = (k % resolved.len()) as int;
    let pool = if m == 0 { resolved } else { resolved.skip(m) };
    assert(pool =~= resolved.skip(m));
}

/// The addresses a host name resolved to that were not tried yet, in resolution order.
pub struct AddressRotation<AddressType> {
    /// Untried addresses, the next one last.
    untried: Vec<AddressType>,
}

impl<AddressType> AddressRotation<AddressType> {
    /// The untried addresses, the next one first.
    pub closed spec fn remaining(&self) -> Seq<AddressType> {
        self.untried@.reverse()
    }

    /// A rotation that has resolved nothing yet.
    pub fn new() -> (rotation: Self)
        ensures
            rotation.remaining() == Seq::<AddressType>::empty(),
    {
        AddressRotation { untried: Vec::new() }
    }

    /// Replaces the untried addresses by a fresh resolution.
    pub fn install_resolved(&mut self, mut resolved: Vec<AddressType>)
        ensures
            final(self).remaining() == resolved@,
    {
        let ghost resolved_order = resolved@;
        let mut untried: Vec<AddressType> = Vec::new();
        while resolved.len() > 0
            invariant
                resolved_order == resolved@ + untried@.reverse(),
            decreases resolved.len(),
        {
            let ghost before = resolved@;
            let address = resolved.pop().unwrap();
            proof {
                assert(before == resolved@.push(address));
                assert(untried@.push(address).reverse() =~= seq![address] + untried@.reverse());
                assert(before + untried@.reverse() =~= resolved@ + untried@.push(address).reverse());
            }
            untried.push(address);
        }
        assert(resolved_order =~= untried@.reverse());
        self.untried = untried;
    }

    /// Whether the next attempt needs a fresh resolution: every resolved address was tried.
    pub fn needs_resolution(&self) -> (needs: bool)
        ensures
            needs == (self.remaining().len() == 0),
    {
        self.untried.len() == 0
    }

    /// The address of the next attempt: the next untried one or, when none is left, the first of
    /// `fresh` -- a new resolution -- whose other addresses are kept for the next attempts;
    /// `None` when the new resolution gave no address. (`fresh` is ignored while untried
    /// addresses are left.)
    pub fn next_address(&mut self, fresh: Vec<AddressType>) -> (address: Option<AddressType>)
        ensures
            (address, final(self).remaining()) == attempt_step(old(self).remaining(), fresh@),
    {
        if self.untried.len() == 0 {
            self.install_resolved(fresh);
        }
        match self.next_step() {
            ConnectStep::Connect(address) => Some(address),
            ConnectStep::Resolve => None,
        }
    }

    /// The next step of a connection attempt: the next untried address (which is then
    /// consumed), or a new resolution when none is left.
    pub fn next_step(&mut self) -> (step: ConnectStep<AddressType>)
        ensures
            (step, final(self).remaining()) == rotation_step(old(self).remaining()),
    {
        match self.untried.pop() {
            Some(address) => {
                assert(old(self).untried@ == self.untried@.push(address));
                assert(self.untried@.push(address).reverse() =~= seq![address] + self.untried@.reverse());
                ConnectStep::Connect(address)
            },
            None => ConnectStep::Resolve,
        }
    }
}

/// The receiving end of a connection channel was dropped, so `T` could not be delivered and
/// comes back with the error; trying again is futile.
pub struct ReceiverDroppedErr<T>(T);

impl<T> ReceiverDroppedErr<T> {
    /// The undelivered value.
    pub closed spec fn undelivered(&self) -> T {
        self.0
    }

    /// The error for `undelivered`, which could not be delivered.
    pub fn new(undelivered: T) -> (err: Self)
        ensures
            err.undelivered() == undelivered,
    {
        ReceiverDroppedErr(undelivered)
    }

    /// Takes the undelivered value back.
    pub fn into_inner(self) -> (undelivered: T)
        ensures
            undelivered == self.undelivered(),
    {
        self.0
    }
}

} // verus!
