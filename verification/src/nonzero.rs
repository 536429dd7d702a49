//! Unsigned integers that are known not to be zero.

use vstd::prelude::*;

verus! {

/// A `u8` that is not zero.
#[derive(Clone, Copy, PartialEq, Eq, PartialOrd, Ord, Hash)]
pub struct NonZeroU8(u8);

impl View for NonZeroU8 {
    type V = int;

    closed spec fn view(&self) -> int {
        self.0 as int
    }
}

impl NonZeroU8 {
    /// What holds of every value: it is not zero.
    #[verifier::type_invariant]
    pub open spec fn wf(self) -> bool {
        self@ != 0
    }

    /// The value of the type for `v`.
    pub closed spec fn of(v: int) -> Self {
        NonZeroU8(v as u8)
    }

    /// The type has one value for each integer.
    pub proof fn law_of(v: int)
        requires
            0 < v <= u8::MAX,
        ensures
            Self::of(v)@ == v,
            forall|x: Self| x@ == v ==> x == Self::of(v),
    {
    }

    /// Creates a non-zero value if the given value is not zero.
    pub fn new(value: u8) -> (r: Option<Self>)
        ensures
            r is Some <==> value != 0,
            r matches Some(x) ==> x@ == value,
    {
        if value == 0 {
            None
        } else {
            Some(Self::new_unchecked(value))
        }
    }

    /// Creates a non-zero value without checking that it is not zero.
    pub fn new_unchecked(value: u8) -> (r: Self)
        requires
            value != 0,
        ensures
            r@ == value,
    {
        NonZeroU8(value)
    }

    /// Returns the value as a primitive type.
    pub fn get(self) -> (r: u8)
        ensures
            r == self@,
            r != 0,
    {
        proof {
            use_type_invariant(&self);
        }
        self.0
    }
}

/// A `u16` that is not zero.
#[derive(Clone, Copy, PartialEq, Eq, PartialOrd, Ord, Hash)]
pub struct NonZeroU16(u16);

impl View for NonZeroU16 {
    type V = int;

    closed spec fn view(&self) -> int {
        self.0 as int
    }
}

impl NonZeroU16 {
    /// What holds of every value: it is not zero.
    #[verifier::type_invariant]
    pub open spec fn wf(self) -> bool {
        self@ != 0
    }

    /// The value of the type for `v`.
    pub closed spec fn of(v: int) -> Self {
        NonZeroU16(v as u16)
    }

    /// The type has one value for each integer.
    pub proof fn law_of(v: int)
        requires
            0 < v <= u16::MAX,
        ensures
            Self::of(v)@ == v,
            forall|x: Self| x@ == v ==> x == Self::of(v),
    {
    }

    /// Creates a non-zero value if the given value is not zero.
    pub fn new(value: u16) -> (r: Option<Self>)
        ensures
            r is Some <==> value != 0,
            r matches Some(x) ==> x@ == value,
    {
        if value == 0 {
            None
        } else {
            Some(Self::new_unchecked(value))
        }
    }

    /// Creates a non-zero value without checking that it is not zero.
    pub fn new_unchecked(value: u16) -> (r: Self)
        requires
            value != 0,
        ensures
            r@ == value,
    {
        NonZeroU16(value)
    }

    /// Returns the value as a primitive type.
    pub fn get(self) -> (r: u16)
        ensures
            r == self@,
            r != 0,
    {
        proof {
            use_type_invariant(&self);
        }
        self.0
    }
}

/// A `u32` that is not zero.
#[derive(Clone, Copy, PartialEq, Eq, PartialOrd, Ord, Hash)]
pub struct NonZeroU32(u32);

impl View for NonZeroU32 {
    type V = int;

    closed spec fn view(&self) -> int {
        self.0 as int
    }
}

impl NonZeroU32 {
    /// What holds of every value: it is not zero.
    #[verifier::type_invariant]
    pub open spec fn wf(self) -> bool {
        self@ != 0
    }

    /// The value of the type for `v`.
    pub closed spec fn of(v: int) -> Self {
        NonZeroU32(v as u32)
    }

    /// The type has one value for each integer.
    pub proof fn law_of(v: int)
        requires
            0 < v <= u32::MAX,
        ensures
            Self::of(v)@ == v,
            forall|x: Self| x@ == v ==> x == Self::of(v),
    {
    }

    /// Creates a non-zero value if the given value is not zero.
    pub fn new(value: u32) -> (r: Option<Self>)
        ensures
            r is Some <==> value != 0,
            r matches Some(x) ==> x@ == value,
    {
        if value == 0 {
            None
        } else {
            Some(Self::new_unchecked(value))
        }
    }

    /// Creates a non-zero value without checking that it is not zero.
    pub fn new_unchecked(value: u32) -> (r: Self)
        requires
            value != 0,
        ensures
            r@ == value,
    {
        NonZeroU32(value)
    }

    /// Returns the value as a primitive type.
    pub fn get(self) -> (r: u32)
        ensures
            r == self@,
            r != 0,
    {
        proof {
            use_type_invariant(&self);
        }
        self.0
    }
}

/// A `u64` that is not zero.
#[derive(Clone, Copy, PartialEq, Eq, PartialOrd, Ord, Hash)]
pub struct NonZeroU64(u64);

impl View for NonZeroU64 {
    type V = int;

    closed spec fn view(&self) -> int {
        self.0 as int
    }
}

impl NonZeroU64 {
    /// What holds of every value: it is not zero.
    #[verifier::type_invariant]
    pub open spec fn wf(self) -> bool {
        self@ != 0
    }

    /// The value of the type for `v`.
    pub closed spec fn of(v: int) -> Self {
        NonZeroU64(v as u64)
    }

    /// The type has one value for each integer.
    pub proof fn law_of(v: int)
        requires
            0 < v <= u64::MAX,
        ensures
            Self::of(v)@ == v,
            forall|x: Self| x@ == v ==> x == Self::of(v),
    {
    }

    /// Creates a non-zero value if the given value is not zero.
    pub fn new(value: u64) -> (r: Option<Self>)
        ensures
            r is Some <==> value != 0,
            r matches Some(x) ==> x@ == value,
    {
        if value == 0 {
            None
        } else {
            Some(Self::new_unchecked(value))
        }
    }

    /// Creates a non-zero value without checking that it is not zero.
    pub fn new_unchecked(value: u64) -> (r: Self)
        requires
            value != 0,
        ensures
            r@ == value,
    {
        NonZeroU64(value)
    }

    /// Returns the value as a primitive type.
    pub fn get(self) -> (r: u64)
        ensures
            r == self@,
            r != 0,
    {
        proof {
            use_type_invariant(&self);
        }
        self.0
    }
}

/// A `u128` that is not zero.
#[derive(Clone, Copy, PartialEq, Eq, PartialOrd, Ord, Hash)]
pub struct NonZeroU128(u128);

impl View for NonZeroU128 {
    type V = int;

    closed spec fn view(&self) -> int {
        self.0 as int
    }
}

impl NonZeroU128 {
    /// What holds of every value: it is not zero.
    #[verifier::type_invariant]
    pub open spec fn wf(self) -> bool {
        self@ != 0
    }

    /// The value of the type for `v`.
    pub closed spec fn of(v: int) -> Self {
        NonZeroU128(v as u128)
    }

    /// The type has one value for each integer.
    pub proof fn law_of(v: int)
        requires
            0 < v <= u128::MAX,
        ensures
            Self::of(v)@ == v,
            forall|x: Self| x@ == v ==> x == Self::of(v),
    {
    }

    /// Creates a non-zero value if the given value is not zero.
    pub fn new(value: u128) -> (r: Option<Self>)
        ensures
            r is Some <==> value != 0,
            r matches Some(x) ==> x@ == value,
    {
        if value == 0 {
            None
        } else {
            Some(Self::new_unchecked(value))
        }
    }

    /// Creates a non-zero value without checking that it is not zero.
    pub fn new_unchecked(value: u128) -> (r: Self)
        requires
            value != 0,
        ensures
            r@ == value,
    {
        NonZeroU128(value)
    }

    /// Returns the value as a primitive type.
    pub fn get(self) -> (r: u128)
        ensures
            r == self@,
            r != 0,
    {
        proof {
            use_type_invariant(&self);
        }
        self.0
    }
}

/// A `usize` that is not zero.
#[derive(Clone, Copy, PartialEq, Eq, PartialOrd, Ord, Hash)]
pub struct NonZeroUsize(usize);

impl View for NonZeroUsize {
    type V = int;

    closed spec fn view(&self) -> int {
        self.0 as int
    }
}

impl NonZeroUsize {
    /// What holds of every value: it is not zero.
    #[verifier::type_invariant]
    pub open spec fn wf(self) -> bool {
        self@ != 0
    }

    /// The value of the type for `v`.
    pub closed spec fn of(v: int) -> Self {
        NonZeroUsize(v as usize)
    }

    /// The type has one value for each integer.
    pub proof fn law_of(v: int)
        requires
            0 < v <= usize::MAX,
        ensures
            Self::of(v)@ == v,
            forall|x: Self| x@ == v ==> x == Self::of(v),
    {
    }

    /// Creates a non-zero value if the given value is not zero.
    pub fn new(value: usize) -> (r: Option<Self>)
        ensures
            r is Some <==> value != 0,
            r matches Some(x) ==> x@ == value,
    {
        if value == 0 {
            None
        } else {
            Some(Self::new_unchecked(value))
        }
    }

    /// Creates a non-zero value without checking that it is not zero.
    pub fn new_unchecked(value: usize) -> (r: Self)
        requires
            value != 0,
        ensures
            r@ == value,
    {
        NonZeroUsize(value)
    }

    /// Returns the value as a primitive type.
    pub fn get(self) -> (r: usize)
        ensures
            r == self@,
            r != 0,
    {
        proof {
            use_type_invariant(&self);
        }
        self.0
    }
}

} // verus!
