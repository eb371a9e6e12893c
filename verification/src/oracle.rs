use vstd::prelude::*;
use ringbuf::{Consumer, Producer, RingBuffer};

verus! {

/// The ring buffer of the `ringbuf` crate, before it is split.
#[verifier::external_type_specification]
#[verifier::external_body]
#[verifier::reject_recursive_types(T)]
pub struct ExRingBuffer<T: Sized>(RingBuffer<T>);

/// The writing end of a ring buffer of the `ringbuf` crate.
#[verifier::external_type_specification]
#[verifier::external_body]
#[verifier::reject_recursive_types(T)]
pub struct ExProducer<T>(Producer<T>);

/// The reading end of a ring buffer of the `ringbuf` crate.
#[verifier::external_type_specification]
#[verifier::external_body]
#[verifier::reject_recursive_types(T)]
pub struct ExConsumer<T>(Consumer<T>);

/// `RingBuffer::new` allocates one slot more than `capacity`. It needs
/// that number to fit a `usize` and the slots' bytes to fit an `isize`.
/// Nothing is stated of the buffer.
pub assume_specification<T: Sized>[ RingBuffer::<T>::new ](capacity: usize) -> (r: RingBuffer<T>)
    requires
        capacity < usize::MAX,
        (capacity + 1) * vstd::layout::size_of::<T>() <= isize::MAX,
;

/// `RingBuffer::split` hands out the two ends of the buffer. Nothing is
/// stated of them.
pub assume_specification<T: Sized>[ RingBuffer::<T>::split ](buffer: RingBuffer<T>) -> (r: (
    Producer<T>,
    Consumer<T>,
))
;

/// `Producer::push` stores the item unless the buffer is full. Whether it
/// is full depends on the other end, so nothing is stated of the result.
pub assume_specification<T: Sized>[ Producer::<T>::push ](
    producer: &mut Producer<T>,
    elem: T,
) -> (r: Result<(), T>)
;

/// `Consumer::pop` takes the oldest item out, if there is one. What is
/// there depends on the other end, so nothing is stated of the result.
pub assume_specification<T: Sized>[ Consumer::<T>::pop ](consumer: &mut Consumer<T>) -> (r: Option<
    T,
>)
;

/// `Consumer::len` counts the items that are stored at the moment of the
/// call. The other end may add to them, so nothing is stated of the
/// result.
pub assume_specification<T: Sized>[ Consumer::<T>::len ](consumer: &Consumer<T>) -> (r: usize)
;

/// Whether a ring buffer for `capacity` items of type `T` can be made.
pub open spec fn ring_fits<T>(capacity: usize) -> bool {
    capacity < usize::MAX && (capacity + 1) * vstd::layout::size_of::<T>() <= isize::MAX
}

/// One end of a two-way channel: it sends `S` and receives `H`.
#[verifier::reject_recursive_types(S)]
#[verifier::reject_recursive_types(H)]
pub struct TwoWayRing<S, H> {
    ask: Producer<S>,
    read: Consumer<H>,
    told: Ghost<Seq<S>>,
}

impl<S, H> TwoWayRing<S, H> {
    /// The half that sends.
    pub closed spec fn sender(&self) -> Producer<S> {
        self.ask
    }

    /// The half that receives.
    pub closed spec fn receiver(&self) -> Consumer<H> {
        self.read
    }

    /// The messages that were handed to this end for sending, in their
    /// order, whether or not there was room for them.
    pub closed spec fn told(&self) -> Seq<S> {
        self.told@
    }

    fn with(ask: Producer<S>, read: Consumer<H>) -> (r: Self)
        ensures
            r.sender() == ask,
            r.receiver() == read,
            r.told() == Seq::<S>::empty(),
    {
        Self { ask, read, told: Ghost(Seq::empty()) }
    }

    /// Takes the oldest message that has arrived, if any, without waiting.
    /// What this end sends and has sent is left alone.
    pub fn read(&mut self) -> (r: Option<H>)
        ensures
            final(self).sender() == old(self).sender(),
            final(self).told() == old(self).told(),
    {
        self.read.pop()
    }

    /// Sends `s` without waiting. Says whether there was room for it; a
    /// message for which there was none is dropped. The half that receives
    /// is left alone.
    pub fn tell(&mut self, s: S) -> (r: bool)
        ensures
            final(self).told() == old(self).told().push(s),
            final(self).receiver() == old(self).receiver(),
    {
        self.told = Ghost(self.told@.push(s));
        self.ask.push(s).is_ok()
    }

    /// Takes out the messages that have arrived by now, the oldest first.
    /// What this end sends and has sent is left alone.
    pub fn drain(&mut self) -> (r: Vec<H>)
        ensures
            final(self).sender() == old(self).sender(),
            final(self).told() == old(self).told(),
    {
        let mut taken: Vec<H> = Vec::new();
        let arrived = self.read.len();
        let mut i: usize = 0;
        while i < arrived
            invariant
                i <= arrived,
                self.ask == old(self).ask,
                self.told == old(self).told,
            decreases arrived - i,
        {
            match self.read.pop() {
                Some(message) => {
                    taken.push(message);
                },
                None => {
                    return taken;
                },
            }
            i = i + 1;
        }
        taken
    }
}

/// Maker of two-way channels.
pub struct Oracle;

impl Oracle {
    /// Whether a ring buffer for `capacity` items of type `T` can be made.
    pub fn fits<T>(capacity: usize) -> (r: bool)
        ensures
            r == ring_fits::<T>(capacity),
    {
        let size = core::mem::size_of::<T>();
        if capacity == usize::MAX {
            return false;
        }
        if size == 0 {
            assert((capacity + 1) * 0 == 0);
            return true;
        }
        let slots = capacity + 1;
        let most = (isize::MAX as usize) / size;
        proof {
            let bound = isize::MAX as int;
            let s = size as int;
            let n = slots as int;
            assert(n <= bound / s <==> n * s <= bound) by (nonlinear_arith)
                requires
                    s > 0,
                    n >= 0,
                    bound >= 0,
            ;
        }
        slots <= most
    }

    /// A channel whose first end buffers `god` messages of type `L` on the
    /// way to the second, and whose second end buffers `prays` messages of
    /// type `R` on the way to the first. Nothing has been sent on it.
    pub fn create<L, R>(god: usize, prays: usize) -> (r: (TwoWayRing<L, R>, TwoWayRing<R, L>))
        requires
            ring_fits::<L>(god),
            ring_fits::<R>(prays),
        ensures
            r.0.told() == Seq::<L>::empty(),
            r.1.told() == Seq::<R>::empty(),
    {
        let rb_god = RingBuffer::<L>::new(god);
        let rb_player = RingBuffer::<R>::new(prays);
        let (god_prod, god_cons) = rb_god.split();
        let (player_prod, player_cons) = rb_player.split();
        let oracle: TwoWayRing<L, R> = TwoWayRing::with(god_prod, player_cons);
        let god: TwoWayRing<R, L> = TwoWayRing::with(player_prod, god_cons);
        (oracle, god)
    }

    /// `create`, where both buffers can be made; else nothing.
    pub fn try_create<L, R>(god: usize, prays: usize) -> (r: Option<
        (TwoWayRing<L, R>, TwoWayRing<R, L>),
    >)
        ensures
            r is Some == (ring_fits::<L>(god) && ring_fits::<R>(prays)),
            r matches Some(ends) ==> ends.0.told() == Seq::<L>::empty(),
            r matches Some(ends) ==> ends.1.told() == Seq::<R>::empty(),
    {
        if Self::fits::<L>(god) && Self::fits::<R>(prays) {
            Some(Self::create(god, prays))
        } else {
            None
        }
    }
}

} // verus!
