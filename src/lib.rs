pub mod clock;
pub mod cpu;
pub mod gpu;
pub mod input;
pub mod theorems;
