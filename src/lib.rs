//! Startup logic for a character LCD with an RGB backlight on an I2C bus:
//! a scan of the bus address space, and the command sequence that brings
//! the display up with a greeting.
pub mod display;
pub mod scan;
