pub mod x11;
