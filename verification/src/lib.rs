//! Downloads the recordings of broadcasts. A recording is offered as a
//! playlist of short segments; this library reads the playlists, plans the
//! fetch of the segments, puts the fetched files in their order, and keeps
//! track of how far each video of a run has come. Sending requests and writing
//! files is left to the caller, who is told at each step what to do next.

pub mod client;
pub mod decimal;
pub mod errors;
pub mod order;
pub mod prompt;
pub mod text;
pub mod twitch;
