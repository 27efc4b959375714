//! Game-engine core logic of the Eldiron role playing game creator:
//! behavior graphs, region data, path finding, map topology and the
//! node libraries of the material and region effect editors.

pub mod types;
pub mod ids;
pub mod arith;
pub mod text;
pub mod seqs;
pub mod value;
pub mod region;
pub mod behavior;
pub mod pathing;
pub mod map;
pub mod utilities;
pub mod instance;
pub mod items;
pub mod levels;
pub mod update;
pub mod io;
pub mod editor;
pub mod targeted;
pub mod fx;
pub mod pools;
pub mod laws;
pub mod scan;
pub mod graph;
pub mod creation;
pub mod ticking;
pub mod server;
pub mod turns;
pub mod setup;
pub mod roots;
