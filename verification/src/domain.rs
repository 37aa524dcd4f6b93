pub mod archive;
pub mod event;
pub mod graph;
pub mod id;
pub mod index_lookup;
pub mod indexes;
pub mod reducer;
pub mod time;
pub mod view;
pub mod view_query;
pub mod view_tree;
pub mod view_history;
pub mod text;
