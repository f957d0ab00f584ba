pub mod orbit_focus;
