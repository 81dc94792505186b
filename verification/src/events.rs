use vstd::prelude::*;
use crate::container::ContainerEvents;
use crate::container::TsNano;

verus! {

/// A container with a number of items.
pub trait WithLen {
    fn len(&self) -> usize;
}

/// A container that can be made empty from nothing.
pub trait Empty: Sized {
    fn empty() -> Self;
}

/// A container that can be emptied in place.
pub trait Resettable {
    fn reset(&mut self);
}

/// A container that takes over the items of another of its kind.
pub trait Extendable: Empty + WithLen {
    fn extend_from(&mut self, src: &mut Self);
}

/// A container that names its type.
pub trait TypeName {
    fn name_of_type(&self) -> String;
}

/// A container that estimates its size in bytes.
pub trait ByteEstimate {
    fn byte_estimate(&self) -> u32;
}

impl<V> WithLen for ContainerEvents<V> {
    fn len(&self) -> (r: usize)
        ensures
            r == self.ev_seq().len(),
    {
        ContainerEvents::len(self)
    }
}

impl<V> Empty for ContainerEvents<V> {
    fn empty() -> (r: Self)
        ensures
            r.ev_seq().len() == 0,
    {
        ContainerEvents::new()
    }
}

impl<V> Resettable for ContainerEvents<V> {
    fn reset(&mut self)
        ensures
            final(self).ev_seq().len() == 0,
    {
        *self = ContainerEvents::new();
    }
}

impl<V> Extendable for ContainerEvents<V> {
    fn extend_from(&mut self, src: &mut Self)
        ensures
            final(self).ev_seq() == old(self).ev_seq() + old(src).ev_seq(),
            final(src).ev_seq().len() == 0,
    {
        let n = ContainerEvents::len(src);
        src.drain_into(self, n);
    }
}

} // verus!
