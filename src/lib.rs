//! Physical memory discovery and zone bookkeeping for an early x86_64 kernel:
//! address types, the firmware memory map, the sorted region list, zone
//! classification and splitting, and the spin lock that guards each zone.
//! Around them: the ELF image format and the boot disk's sector reads, and
//! the text screen's cell and cursor logic.

pub mod addressing;
pub mod boot;
pub mod bytes;
pub mod console;
pub mod elf;
pub mod multiboot;
pub mod percpu;
pub mod region;
pub mod spinlock;
pub mod zone;
