pub mod detector;
