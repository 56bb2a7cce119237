//! Concurrency-safe access layer for a packed, read-only game-asset archive,
//! exposed as a navigable hierarchical namespace of lazily parsed nodes.

mod laws;
mod lemmas;
mod mutate;
mod node;
mod path;
mod resolve;
mod store;
mod sync;
mod transcode;

pub use node::ChildEntry;
pub use node::EntryView;
pub use node::Node;
pub use node::NodeView;
pub use node::ObjectType;
pub use node::ParseState;
pub use node::entry_names_distinct;
pub use node::resolve_from;
pub use node::updated_at;
pub use path::spec_split;
pub use path::split_path;
pub use path::split_segments;
pub use mutate::ParseOutcome;
pub use mutate::build_children;
pub use mutate::names_distinct;
pub use mutate::parse_at;
pub use mutate::unparse_at;
pub use lemmas::lemma_cleared_wf;
pub use lemmas::lemma_populated_wf;
pub use lemmas::lemma_resolve_after_update;
pub use lemmas::lemma_resolve_append;
pub use lemmas::lemma_updated_at_wf;
pub use resolve::lemma_child_index_unique;
pub use resolve::lemma_wf_child;
pub use store::ArchiveRoot;
pub use store::InfoView;
pub use store::NodeInfo;
pub use store::NodeStore;
pub use store::OpenedArchive;
pub use store::OpenedView;
pub use store::RootView;
pub use store::Status;
pub use store::Version;
pub use store::WzError;
pub use store::fresh_root;
pub use store::info_of;
pub use store::init_transition;
pub use store::items_loaded;
pub use store::store_wf;
pub use sync::SharedStore;
pub use sync::StoreInv;
pub use transcode::encode_animated_image;
pub use laws::lemma_initialize_idempotent;
pub use laws::lemma_items_loaded_after_item_parse;
pub use laws::lemma_items_unloaded_after_initialize;
pub use laws::lemma_resolve_identity;
pub use laws::lemma_resolve_wf;
pub use laws::lemma_transition_atomic;
pub use laws::lemma_unparse_then_parse_is_fresh;
pub use laws::lemma_unparsed_frontier;
