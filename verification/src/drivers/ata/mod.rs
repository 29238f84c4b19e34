pub mod ata_core;
