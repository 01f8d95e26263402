use vstd::prelude::*;

pub mod appimage;
pub mod config;
pub mod desktop;
pub mod dwarfs;
pub mod elf;
pub mod error;
pub mod text;
pub mod uruntime;
pub mod util;

verus! {

} // verus!
