pub mod emulators;
pub mod instruction;
pub mod ops;
pub mod uxninterface;
pub mod uxnasmlib;
pub mod utils;
