//! What holds of the library's operations as a whole: laws over the results of calls, whatever
//! spec functions describe them.

pub mod chart;
pub mod desk;
pub mod display;
pub mod lamp;
pub mod market;
pub mod media;
pub mod ota;
pub mod page;
pub mod parts;
pub mod sensor;
pub mod ticker;
pub mod web;
