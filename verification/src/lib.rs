//! Mouse-trail recording and replay: the decisions of the recorder and the
//! replayer, the trail file names, and the choice of the best trail.
pub mod geometry;
pub mod decimal;
pub mod trail_name;
pub mod trail;
pub mod random;
pub mod tracker;
