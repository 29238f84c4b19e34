pub mod ata;
