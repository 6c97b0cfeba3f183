pub mod align;
