pub mod hex;
pub mod rgb;
pub mod text;
pub mod rng;
pub mod json_bytes;
pub mod json_arrays;
pub mod layout;
pub mod bubbles;
pub mod mosaic;
pub mod custom_gradient_wave;
pub mod custom_marquee;
pub mod clock;
pub mod marquee;
pub mod json_text;
pub mod json_fields;
pub mod audio_art;
pub mod audio_star;
pub mod breathing;
pub mod breathing_circle;
pub mod audio_party;
pub mod audio_sine;
pub mod audio_sync;
pub mod crossing_beams;
pub mod hypnotoad;
pub mod moving_panes;
pub mod color_wheel;
pub mod double_rotating_rainbow;
pub mod fractal_motion;
pub mod palette;
pub mod audio_visualizer;
pub mod laws;
pub mod audio_bubbles;
