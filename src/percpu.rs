use vstd::prelude::*;

verus! {

/// Types that a per-CPU slot may hold: plain integers, copied in and out
/// whole.
pub trait PerCPUSafe {}

impl PerCPUSafe for i8 {}

impl PerCPUSafe for i16 {}

impl PerCPUSafe for i32 {}

impl PerCPUSafe for i64 {}

impl PerCPUSafe for u8 {}

impl PerCPUSafe for u16 {}

impl PerCPUSafe for u32 {}

impl PerCPUSafe for u64 {}

impl PerCPUSafe for usize {}

/// A per-CPU variable: each CPU reads and writes its own copy.
pub trait PerCPU {
    type T: PerCPUSafe;

    fn get() -> Self::T;

    fn set(v: Self::T);
}

} // verus!
