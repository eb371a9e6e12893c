pub mod ballot;
