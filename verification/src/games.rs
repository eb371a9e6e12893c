pub mod classic;
