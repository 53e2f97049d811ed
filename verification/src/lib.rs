//! Core of a render service that turns an uploaded audio clip and a still
//! image into a looping video. A shared key-value store acts both as blob
//! storage and as a FIFO work queue; the render worker dequeues tasks,
//! stages the assets, drives an external encoder and commits results back
//! to the store in one all-or-nothing transaction.
//!
//! The store, the queue entry wire format and the worker's control flow are
//! modelled and verified here; process setup and the actual network, file
//! and subprocess traffic live outside the library.
pub mod builder;
pub mod configuration;
pub mod content_length_limit;
pub mod ident;
pub mod progress;
pub mod store;
pub mod task;
pub mod worker;
