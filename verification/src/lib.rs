pub mod clock;
pub mod context;
pub mod eval;
pub mod moves;
pub mod ordering;
pub mod perft;
pub mod params;
pub mod position;
pub mod pv;
pub mod score;
pub mod search;
pub mod state;
pub mod time_manager;
pub mod utility;
pub mod tt;
pub mod uci;
