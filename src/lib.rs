//! Locations of published RPKI objects and the envelope of the publication
//! protocol.
pub mod pubmsg;
pub mod text;
pub mod uri;
