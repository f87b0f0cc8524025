//! Graph, routing and session rules of a desktop audio/video patchbay.
#![allow(unused_imports)]
use vstd::prelude::*;

pub mod audio_controls;
pub mod blocking;
pub mod composite;
pub mod configuration;
pub mod demo;
pub mod demo_effects;
pub mod demo_recorders;
pub mod drivers;
pub mod effect_callback;
pub mod effect_model;
pub mod effect_request;
pub mod events;
pub mod gallery;
pub mod graph;
pub mod ids;
pub mod insertion;
pub mod json;
pub mod lists;
pub mod merge;
pub mod metering;
pub mod model;
pub mod native_effects;
pub mod portal_session;
pub mod publication;
pub mod recorder;
pub mod recorder_buffer;
pub mod registry;
pub mod relay_callback;
pub mod relay_endpoints;
pub mod relay_local;
pub mod relay_playback;
pub mod relay_ports;
pub mod relay_requests;
pub mod relay_route;
pub mod roundtrip;
pub mod rows;
pub mod samples;
pub mod saved_effects;
pub mod screencast;
pub mod selection;
pub mod settings;
pub mod snapshot;
pub mod status;
pub mod streams;
pub mod table;
pub mod text;
pub mod text_table;
pub mod ui_actions;
pub mod video_board;
pub mod video_bridge;
pub mod video_connect;
pub mod video_frames;
pub mod video_inject;
pub mod video_names;
pub mod video_session;
pub mod video_spec;
pub mod window;

verus! {

} // verus!
