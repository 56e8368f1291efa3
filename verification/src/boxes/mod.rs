//! The boxes of ISO/IEC 14496-12 and the entries they hold.
pub mod sample_group;
pub mod sample_groups;
pub mod video_media;
pub mod track_time;
pub mod track_data_layout;
pub mod movie_fragments;
pub mod metadata;
pub mod file_organization;
pub mod sample_entries;
pub mod file_delivery;
pub mod audio_media;
pub mod general;
pub mod incomplete_tracks;
pub mod segments;
pub mod entity_grouping;
pub mod item_properties;
pub mod item_info;
pub mod media_headers;
pub mod sample_group_description;
pub mod aux_info;
pub mod item_reference;
pub mod schemes;
pub mod sub_samples;
pub mod track_media;
pub mod fragment_random_access;
pub mod movie_extends;
pub mod data_reference;
pub mod edit;
pub mod sample_table;
pub mod loudness;
pub mod user_data;
pub mod sub_tracks;
pub mod user_data_box;
pub mod track;
pub mod groups_list;
pub mod original_file_type;
pub mod protection;
pub mod fd_item_info;
pub mod meta;
pub mod sample_table_box;
pub mod media;
pub mod movie;
pub mod fragments;
