use vstd::prelude::*;

verus! {

/// Number of distinct counter values per instance; a token's instance number
/// sits above them.
pub const INSTANCE_SPAN: u64 = 0x1_0000_0000_0000;

/// Largest instance number.
pub const MAX_INSTANCE: u64 = 0xffff;

/// The token with instance number `instance` and counter value `counter`.
pub open spec fn token_of(instance: int, counter: int) -> u64 {
    (instance * INSTANCE_SPAN + counter) as u64
}

/// The instance that issued `token`.
pub open spec fn instance_of(token: u64) -> int {
    token as int / INSTANCE_SPAN as int
}

/// Hands out fencing tokens: a fetch-and-increment counter that starts at 1,
/// tagged with the number of the process instance that owns the allocator.
/// Instances that share a store and have distinct numbers never issue the same
/// token; the counter wraps within its instance.
pub struct TokenAllocator {
    instance: u64,
    counter: u64,
}

impl TokenAllocator {
    #[verifier::type_invariant]
    spec fn inv(self) -> bool {
        self.instance <= MAX_INSTANCE && self.counter < INSTANCE_SPAN
    }

    pub closed spec fn instance(&self) -> int {
        self.instance as int
    }

    pub closed spec fn counter(&self) -> int {
        self.counter as int
    }

    /// The token that the next call of `next` hands out.
    pub open spec fn upcoming(&self) -> u64 {
        token_of(self.instance(), self.counter())
    }

    /// The allocator of a single-instance deployment: tokens 1, 2, 3, ...
    pub fn new() -> (r: TokenAllocator)
        ensures
            r.instance() == 0,
            r.counter() == 1,
            r.upcoming() == 1,
    {
        TokenAllocator { instance: 0, counter: 1 }
    }

    /// The allocator of instance `instance`; its first token has counter 1.
    pub fn for_instance(instance: u16) -> (r: TokenAllocator)
        ensures
            r.instance() == instance,
            r.counter() == 1,
    {
        TokenAllocator { instance: instance as u64, counter: 1 }
    }

    /// Returns the current token and advances the counter, wrapping to 0 after
    /// the last counter value of the instance.
    pub fn next(&mut self) -> (token: u64)
        ensures
            token == old(self).upcoming(),
            instance_of(token) == old(self).instance(),
            0 <= old(self).instance() <= MAX_INSTANCE,
            0 <= old(self).counter() < INSTANCE_SPAN,
            final(self).instance() == old(self).instance(),
            final(self).counter() == (old(self).counter() + 1) % (INSTANCE_SPAN as int),
    {
        proof {
            use_type_invariant(&*self);
        }
        let token = self.instance * INSTANCE_SPAN + self.counter;
        assert(instance_of(token) == self.instance) by {
            assert(token as int == self.instance * INSTANCE_SPAN + self.counter);
            assert(token as int / INSTANCE_SPAN as int == self.instance as int) by (nonlinear_arith)
                requires
                    token as int == self.instance * INSTANCE_SPAN + self.counter,
                    self.counter < INSTANCE_SPAN,
                    INSTANCE_SPAN > 0,
            ;
        }
        self.counter = if self.counter + 1 == INSTANCE_SPAN {
            0
        } else {
            self.counter + 1
        };
        token
    }
}

/// The tokens that `n` successive calls of `next` hand out to an allocator of
/// instance `instance` whose counter stands at `counter`.
pub open spec fn issued(instance: int, counter: int, n: nat) -> Seq<u64> {
    Seq::new(n, |i: int| token_of(instance, (counter + i) % (INSTANCE_SPAN as int)))
}

proof fn lemma_instance_of_token(instance: int, counter: int)
    requires
        0 <= instance <= MAX_INSTANCE,
        0 <= counter < INSTANCE_SPAN,
    ensures
        token_of(instance, counter) as int == instance * INSTANCE_SPAN + counter,
        instance_of(token_of(instance, counter)) == instance,
{
    assert(0 <= instance * INSTANCE_SPAN + counter <= u64::MAX) by (nonlinear_arith)
        requires
            0 <= instance <= MAX_INSTANCE,
            0 <= counter < INSTANCE_SPAN,
    ;
    let t = instance * INSTANCE_SPAN + counter;
    assert(t / INSTANCE_SPAN as int == instance) by (nonlinear_arith)
        requires
            t == instance * INSTANCE_SPAN + counter,
            0 <= counter < INSTANCE_SPAN,
    ;
}

/// Successive tokens of one allocator increase strictly, whatever keys they are
/// used for, as long as its counter does not wrap around within the run; the
/// first is the allocator's upcoming token.
pub proof fn lemma_tokens_increase(instance: int, counter: int, n: nat)
    requires
        0 <= instance <= MAX_INSTANCE,
        0 <= counter,
        counter + n <= INSTANCE_SPAN,
    ensures
        issued(instance, counter, n).len() == n,
        n > 0 ==> issued(instance, counter, n)[0] == token_of(instance, counter),
        forall|i: int, j: int|
            0 <= i < j < n ==> #[trigger] issued(instance, counter, n)[i] < #[trigger] issued(
                instance,
                counter,
                n,
            )[j],
{
    let s = issued(instance, counter, n);
    assert forall|i: int, j: int| 0 <= i < j < n implies #[trigger] s[i] < #[trigger] s[j] by {
        assert((counter + i) % (INSTANCE_SPAN as int) == counter + i);
        assert((counter + j) % (INSTANCE_SPAN as int) == counter + j);
        lemma_instance_of_token(instance, counter + i);
        lemma_instance_of_token(instance, counter + j);
    }
    if n > 0 {
        assert(counter % (INSTANCE_SPAN as int) == counter);
    }
}

/// Allocators of distinct instances never hand out the same token: every token
/// carries the number of the instance that issued it.
pub proof fn lemma_instances_disjoint(instance: int, counter: int, other: int, other_counter: int)
    requires
        0 <= instance <= MAX_INSTANCE,
        0 <= other <= MAX_INSTANCE,
        0 <= counter < INSTANCE_SPAN,
        0 <= other_counter < INSTANCE_SPAN,
        instance != other,
    ensures
        instance_of(token_of(instance, counter)) == instance,
        token_of(instance, counter) != token_of(other, other_counter),
{
    lemma_instance_of_token(instance, counter);
    lemma_instance_of_token(other, other_counter);
}

} // verus!
