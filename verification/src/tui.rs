//! The views, and what they are built from.

pub mod api_dash;
pub mod bar_chart;
pub mod canvas;
pub mod dash_board;
pub mod draw_graph;
pub mod histories;
pub mod history;
pub mod layout;
pub mod line;
pub mod text;
