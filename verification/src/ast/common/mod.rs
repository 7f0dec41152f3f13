pub mod ty;
