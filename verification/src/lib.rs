//! Verified core of the Blaze-64 fantasy computer: versioned resource ids,
//! pixel graphics state and drawing, colour arithmetic, audio sample queues,
//! byte encoding and event bookkeeping.

pub mod id;
pub mod graphics;
pub mod byte_builder;
pub mod driver;
pub mod input;
pub mod option_cell;
pub mod mut_cell;
pub mod event_names;
pub mod event;
pub mod process;
pub mod kernel;
pub mod async_file;
pub mod imports;
