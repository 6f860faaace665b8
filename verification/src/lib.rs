pub mod graph_interface;
pub mod pcm;
pub mod project_interface;
pub mod reclaim;
pub mod resource_loader;
pub mod timebase;
pub mod timeline;
