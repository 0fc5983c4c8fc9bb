pub mod devices;
pub mod uxn;
pub mod romreaderror;
pub mod uxnclilib;
pub mod uxnemulib;
