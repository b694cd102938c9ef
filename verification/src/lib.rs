//! Host and guest sides of a bridge that carries sensor readings from a virtual
//! machine to the hwmon devices of its host.

pub mod agent;
pub mod ctl;
pub mod encoding;
pub mod host;
pub mod id_map;
pub mod number;
pub mod order;
pub mod path;
pub mod protocol;
pub mod seqs;
pub mod text;
pub mod time;
