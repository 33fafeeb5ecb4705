//! The rules of the Void & Thunder client, verified: the thrust ladder and the
//! helm's intents, the camera's framing, the HUD's wire vocabulary and the
//! snapshot document it is sent, the career tally, loadout fitting, ship-class
//! lookup and scenario layout, the run lifecycle, the design panel's merge,
//! the sound cues and WAV container, trail histories and model rigs, and the
//! mesh topologies the renderer fills in.

pub mod text;
pub mod paths;
pub mod input;
pub mod pilot;
pub mod camera;
pub mod session;
pub mod progress;
pub mod loadouts;
pub mod models;
pub mod ships;
pub mod scenario;
pub mod compose;
pub mod hud;
pub mod readout;
pub mod ring;
pub mod dev;
pub mod audio;
pub mod trail;
pub mod rig;
pub mod mesh;
