pub mod arming;
pub mod base_lighting;
pub mod bind_laws;
pub mod bindings;
pub mod bridge;
pub mod canvas;
pub mod canvas_laws;
pub mod capture;
pub mod capture_laws;
pub mod charge;
pub mod chroma_shm;
pub mod constructor;
pub mod device_laws;
pub mod devices;
pub mod edit_laws;
pub mod editor_laws;
pub mod editors;
pub mod hidwatch;
pub mod host;
pub mod host_card;
pub mod host_laws;
pub mod light_laws;
pub mod light_session;
pub mod light_stack;
pub mod light_surface;
pub mod macros;
pub mod meters;
pub mod naming;
pub mod obs;
pub mod obs_laws;
pub mod page_laws;
pub mod palette;
pub mod profiles;
pub mod reader;
pub mod registry;
pub mod shared;
pub mod source_scan;
pub mod status;
pub mod system;
pub mod system_laws;
pub mod text;
pub mod text_laws;
pub mod textmap;
pub mod weave;
pub mod weave_laws;
pub mod workshop;
pub mod workshop_laws;
