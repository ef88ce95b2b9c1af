//! Verified core of a deterministic motion-graphics scene library.
//!
//! The crate holds the rules of the scene format: expression admission, evaluation order,
//! material schema validation, text addressing and the shape of a recorded frame. Numeric kernels,
//! font shaping and box layout belong to the host, which hands plain values in and out.

pub mod admission;
pub mod admission_laws;
pub mod arc_lengths;
pub mod artifact;
pub mod backgrounds;
pub mod binding_laws;
pub mod bindings;
pub mod blend;
pub mod box_laws;
pub mod boxes;
pub mod camera;
pub mod clusters;
pub mod content;
pub mod content_laws;
pub mod continuity;
pub mod contours;
pub mod declarations;
pub mod determinism;
pub mod digest;
pub mod effect_laws;
pub mod effects;
pub mod emitter;
pub mod eval;
pub mod eval_laws;
pub mod expr;
pub mod faults;
pub mod filters;
pub mod findings;
pub mod folding;
pub mod foreground;
pub mod formula;
pub mod frame;
pub mod frame_laws;
pub mod glass;
pub mod glass_frame;
pub mod glass_laws;
pub mod glass_layout;
pub mod glass_parts;
pub mod glyphs;
pub mod frames;
pub mod gradient;
pub mod gradient_laws;
pub mod gradient_record;
pub mod identity;
pub mod inspect;
pub mod instants;
pub mod layout_cache;
pub mod layout_error;
pub mod layout_tree;
pub mod lineage;
pub mod measure;
pub mod measure_laws;
pub mod membership;
pub mod motion_laws;
pub mod node_laws;
pub mod nodes;
pub mod order;
pub mod outline_laws;
pub mod outlines;
pub mod paint_laws;
pub mod painting;
pub mod passes;
pub mod path;
pub mod path_laws;
pub mod pieces;
pub mod plane_laws;
pub mod planes;
pub mod projection;
pub mod props;
pub mod reach;
pub mod readiness;
pub mod recording;
pub mod resolved;
pub mod reuse;
pub mod rooted;
pub mod rule_laws;
pub mod run_laws;
pub mod runs;
pub mod sample_laws;
pub mod sampling;
pub mod scalar;
pub mod scene3d;
pub mod scene_frames;
pub mod scene_laws;
pub mod schema;
pub mod schema_laws;
pub mod shell;
pub mod shell_laws;
pub mod show_laws;
pub mod spaces;
pub mod stages;
pub mod structure;
pub mod stylesheet;
pub mod surface;
pub mod table;
pub mod text;
pub mod text_laws;
pub mod text_paths;
pub mod text_units;
pub mod track_laws;
pub mod tracks;
pub mod trees;
pub mod trimming;
pub mod typing;
pub mod typing_laws;
pub mod units;
pub mod value;
pub mod value_laws;
pub mod visibility;

pub use clusters::{
    checked_cluster_ranges, project_cluster_ranges, ClusterReject, Span, TextSourceSegment,
};
pub use projection::{
    collapsed_text_projection, is_css_collapsible_whitespace, text_source_projection, TextTransform,
    WhiteSpaceCollapse,
};
pub use scalar::Scalar;
pub use text::decimal;
pub use units::{unit_boundaries, TextSplit};
