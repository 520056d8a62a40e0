//! The decisions of the marble race client, verified: the room session and its server
//! calls, peer tracking, the camera modes, the game screen's phases, standings and reports,
//! reactions, the network picture's structure, and the editor's input handling.

pub mod str_map;
pub mod token;
pub mod auth_retry;
pub mod room;
pub mod peer_manager;
pub mod camera;
pub mod game_flow;
pub mod standings;
pub mod reaction_feed;
pub mod labels;
pub mod topology;
pub mod routing;
pub mod interaction;
pub mod editor_input;
pub mod timeline;
