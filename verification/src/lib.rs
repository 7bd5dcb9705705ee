//! A minimal web server core. The heart is a bounded worker pool: a fixed
//! set of workers fed from one shared FIFO queue, with exactly-once job
//! delivery, failure isolation, and a shutdown barrier. Around it stand the
//! request router (prefix matching over the received bytes), the response
//! texts, and a model of the persisted-data resource that save requests
//! overwrite under a file lock.

pub mod handlers;
pub mod pool;
pub mod response;
pub mod routes;
pub mod storage;
