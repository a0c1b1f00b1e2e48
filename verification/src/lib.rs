//! Recognition of a rectangle gesture traced along the screen edges, and the
//! planning of the filtered directory copy that the gesture starts.
pub mod coordinator;
pub mod copy;
pub mod destination;
pub mod recognizer;
pub mod stroke;
pub mod text;
