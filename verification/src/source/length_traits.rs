//! Conversions of stream lengths, and comparing one with a byte count.
use vstd::prelude::*;

use core::cmp::Ordering;

use vstd::std_specs::cmp::PartialEqSpecImpl;
use vstd::std_specs::convert::FromSpecImpl;
use vstd::std_specs::cmp::PartialOrdSpecImpl;

use super::{ContentLength, DynamicLength};

verus! {

/// A count is a static length.
impl From<u64> for ContentLength {
    fn from(value: u64) -> (r: Self) {
        ContentLength::Static(value)
    }
}

impl FromSpecImpl<u64> for ContentLength {
    open spec fn obeys_from_spec() -> bool {
        true
    }

    open spec fn from_spec(value: u64) -> Self {
        ContentLength::Static(value)
    }
}

/// A dynamic length.
impl From<DynamicLength> for ContentLength {
    fn from(value: DynamicLength) -> (r: Self) {
        ContentLength::Dynamic(value)
    }
}

impl FromSpecImpl<DynamicLength> for ContentLength {
    open spec fn obeys_from_spec() -> bool {
        true
    }

    open spec fn from_spec(value: DynamicLength) -> Self {
        ContentLength::Dynamic(value)
    }
}

/// A length as its current value.
impl From<ContentLength> for Option<u64> {
    fn from(value: ContentLength) -> (r: Self) {
        value.current_value()
    }
}

impl FromSpecImpl<ContentLength> for Option<u64> {
    open spec fn obeys_from_spec() -> bool {
        true
    }

    open spec fn from_spec(value: ContentLength) -> Self {
        value.spec_current_value()
    }
}

/// A content length equals a count when its current value is that count; an
/// unknown length equals no count.
impl PartialEq<u64> for ContentLength {
    fn eq(&self, other: &u64) -> (r: bool) {
        match self.current_value() {
            Some(len) => len == *other,
            None => false,
        }
    }
}

impl PartialEqSpecImpl<u64> for ContentLength {
    open spec fn obeys_eq_spec() -> bool {
        true
    }

    open spec fn eq_spec(&self, other: &u64) -> bool {
        self.spec_current_value() == Some(*other)
    }
}

/// A content length is ordered against a count by its current value; an
/// unknown length is not ordered.
impl PartialOrd<u64> for ContentLength {
    fn partial_cmp(&self, other: &u64) -> (r: Option<Ordering>) {
        match self.current_value() {
            Some(len) => if len < *other {
                Some(Ordering::Less)
            } else if len == *other {
                Some(Ordering::Equal)
            } else {
                Some(Ordering::Greater)
            },
            None => None,
        }
    }
}

impl PartialOrdSpecImpl<u64> for ContentLength {
    open spec fn obeys_partial_cmp_spec() -> bool {
        true
    }

    open spec fn partial_cmp_spec(&self, other: &u64) -> Option<Ordering> {
        match self.spec_current_value() {
            Some(len) => if len < *other {
                Some(Ordering::Less)
            } else if len == *other {
                Some(Ordering::Equal)
            } else {
                Some(Ordering::Greater)
            },
            None => None,
        }
    }
}

} // verus!
