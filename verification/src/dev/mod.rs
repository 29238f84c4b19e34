pub mod block;
pub mod tempfs;
