pub mod drives;
