//! Instruments of the Mars 2020 mission.

pub mod helirte;
