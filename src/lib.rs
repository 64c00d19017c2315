//! Object mapping extraction for archived blocks, piece validation decisions
//! and the weights of the executive pallet.

pub mod encoding;
pub mod object_mapping;
pub mod mapping_properties;
pub mod piece_validator;
pub mod weights;
