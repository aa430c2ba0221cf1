//! A booking engine core: reservations over exclusive time windows on named
//! resources.  The library holds the data model and its validation, the
//! reservation status lifecycle, the manager's create/read/update/delete/query
//! logic over a reference store that enforces range-overlap exclusion, and the
//! translation of store conflict diagnostics into structured conflict values.

pub mod conflict;
pub mod error;
pub mod ids;
pub mod laws;
pub mod manager;
pub mod reservation;
pub mod status;
pub mod timestamp;
pub mod utils;
