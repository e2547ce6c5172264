//! A pool of mining workers: the commands it takes, the commands it sends
//! its workers, and what it decides to send for each command.

pub mod miner;
pub mod pool;
