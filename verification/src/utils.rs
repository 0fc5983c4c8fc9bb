pub mod spritemake;
