pub mod ethereum;
