//! Choosing a storage from the content length: an infinite stream goes into a
//! bounded buffer over the fixed-length storage; a finite stream that fits the
//! buffer size uses the fixed-length storage directly; a larger one uses the
//! variable-length storage.
use vstd::prelude::*;

use super::bounded::BoundedStorageProvider;
use super::ContentLength;

verus! {

/// Chooses between a fixed-length and a variable-length storage provider.
#[derive(Debug, Clone)]
pub struct AdaptiveStorageProvider<F, V> {
    buffer_size: usize,
    fixed_storage: F,
    variable_storage: V,
}

/// The storage chosen for a stream.
#[derive(Debug)]
pub enum AdaptiveChoice<F, V> {
    /// An infinite stream: a bounded buffer over the fixed-length storage.
    Bounded(BoundedStorageProvider<F>),
    /// A finite stream no larger than the buffer size.
    Fixed(F),
    /// A finite stream larger than the buffer size.
    Variable(V),
}

impl<F, V> AdaptiveStorageProvider<F, V> {
    /// The buffer size.
    pub closed spec fn spec_buffer_size(&self) -> usize {
        self.buffer_size
    }

    /// The fixed-length provider.
    pub closed spec fn spec_fixed(&self) -> F {
        self.fixed_storage
    }

    /// The variable-length provider.
    pub closed spec fn spec_variable(&self) -> V {
        self.variable_storage
    }

    /// A provider with separate fixed- and variable-length storages; streams
    /// up to `buffer_size` (non-zero) bytes use the fixed one.
    pub fn with_fixed_and_variable(fixed_storage: F, variable_storage: V, buffer_size: usize) -> (r: Self)
        requires
            buffer_size > 0,
        ensures
            r.spec_buffer_size() == buffer_size,
            r.spec_fixed() == fixed_storage,
            r.spec_variable() == variable_storage,
    {
        AdaptiveStorageProvider { buffer_size, fixed_storage, variable_storage }
    }

    /// The storage for a stream of this content length: bounded when the
    /// length is unknown, fixed when it is at most the buffer size, variable
    /// otherwise.
    pub fn into_choice(self, content_length: ContentLength) -> (r: AdaptiveChoice<F, V>)
        requires
            self.spec_buffer_size() > 0,
        ensures
            match content_length.spec_current_value() {
                None => r matches AdaptiveChoice::Bounded(b) && b.spec_inner() == self.spec_fixed()
                    && b.spec_buffer_size() == self.spec_buffer_size(),
                Some(len) => if len <= self.spec_buffer_size() {
                    r == AdaptiveChoice::<F, V>::Fixed(self.spec_fixed())
                } else {
                    r == AdaptiveChoice::<F, V>::Variable(self.spec_variable())
                },
            },
    {
        match content_length.current_value() {
            None => AdaptiveChoice::Bounded(
                BoundedStorageProvider::new(self.fixed_storage, self.buffer_size),
            ),
            Some(len) => if len <= self.buffer_size as u64 {
                AdaptiveChoice::Fixed(self.fixed_storage)
            } else {
                AdaptiveChoice::Variable(self.variable_storage)
            },
        }
    }
}

impl<T: Clone> AdaptiveStorageProvider<T, T> {
    /// A provider that uses (a clone of) the same provider for both roles.
    pub fn new(provider: T, buffer_size: usize) -> (r: Self)
        requires
            buffer_size > 0,
        ensures
            r.spec_buffer_size() == buffer_size,
            cloned(provider, r.spec_fixed()),
            r.spec_variable() == provider,
    {
        let fixed = provider.clone();
        Self::with_fixed_and_variable(fixed, provider, buffer_size)
    }
}

} // verus!
