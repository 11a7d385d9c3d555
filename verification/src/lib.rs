//! Compiles a declarative speaker layout into the routing graph of a
//! multichannel audio engine.
//!
//! A layout names its speakers, says which of them are subwoofers, and
//! gives each a gain, a delay, an optional crossover frequency and any
//! number of equalizer bands. [`camilla::convert_processor_settings_to_camilla`]
//! turns it into the mixers, the filter definitions, the pipeline and
//! the devices that the engine runs. Every function states in its
//! contract what it returns, and the modules state what holds of the
//! graph as a whole: the channel counts of the two mixers meet, every
//! channel that a mixer mentions exists, and the graph is walked in the
//! order of the speakers' names.

pub mod camilla;
pub mod devices;
pub mod filters;
pub mod mixers;
pub mod name_map;
pub mod pipeline;
pub mod processor;
pub mod text;
