//! The security level of a key store: the rules by which keys are generated, imported, used,
//! converted and deleted on one KeyMint device.
//!
//! The calls of a security level need a device, a database and other services, and decide in
//! between. Each call is a value that says what it waits for (`pending`) and goes on from what
//! came back (`resume`); whoever holds it performs the requests. So the decisions, and the order
//! in which things are asked, are proved for whatever the services answer.
//!
//! - `types`, `request`: the vocabulary, and what is asked and answered.
//! - `level`: a security level, and the names of new keys.
//! - `params`, `certs`: rules on lists of parameters and on certificate chains.
//! - `counts`, `admission`, `required`, `retry`, `store`, `load`, `upgrade`: the parts of which
//!   calls are made.
//! - `create`, `generate`, `import`, `wrapped`, `delete`, `storage_key`: the calls.
//! - `report`: what is watched and recorded of a call.
//! - `lists`: what the rules on lists come to, said of the lists themselves.
//! - `dialogue`, `creation`, `generating`, `importing`: what calls ask in turn, said of their
//!   arguments and of what was answered before.
//! - `laws`, `masking`, `endings`, `success`: what holds of whole calls, and `course`, how a run
//!   goes on the way to their success.

pub mod admission;
pub mod certs;
pub mod counts;
pub mod course;
pub mod create;
pub mod creation;
pub mod delete;
pub mod dialogue;
pub mod endings;
pub mod generate;
pub mod generating;
pub mod import;
pub mod importing;
pub mod laws;
pub mod level;
pub mod lists;
pub mod load;
pub mod masking;
pub mod params;
pub mod report;
pub mod request;
pub mod required;
pub mod retry;
pub mod storage_key;
pub mod store;
pub mod success;
pub mod types;
pub mod upgrade;
pub mod wrapped;
