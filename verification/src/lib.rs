//! Verified core of an analog clock slide: the noise texture, the index
//! topology of the clock's meshes, the draw plan and the framing of the
//! serialized slide description.

pub mod cell;
pub mod noise;
pub mod scene;
pub mod topology;
pub mod wire;
