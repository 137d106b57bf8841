/// Boundaries that show a fallback, content or an error over async resources.
pub mod boundary;
/// A number field that keeps its last accepted value.
pub mod input;
/// Async resources whose latest started computation wins.
pub mod resource;
/// Signals, their subscribers and the values derived from them.
pub mod signal;
/// The computations of the demo's widgets.
pub mod widgets;
