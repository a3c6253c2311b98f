pub mod release;
