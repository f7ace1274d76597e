//! Host-side engine for Dygma keyboards: the Focus protocol that queries and
//! configures a keyboard over its serial port, and the pipeline that
//! reprograms its firmware.
//!
//! The library owns no port and fetches nothing. Every operation on a device
//! is a function from the state of the session and what the port did last to
//! the next state and what the port must do next: the caller writes what it
//! is told to write, reads what it is told to read, and hands the result
//! back. What the library decides is stated in the contracts of these
//! functions and proved.
//!
//! - [`text`]: characters, tokens, lines and decimal numerals.
//! - [`helpers`], [`color`], [`enums`]: the values that travel as text.
//! - [`transport`]: the framing of responses that arrive in pieces.
//! - [`focus`]: the session; the command lines, the readers of typed
//!   responses and the guarded write.
//! - [`api`]: the operations of the device, one function for each.
//! - [`settings`]: the backup and the restore of all settings.
//! - [`ihex`]: the decoder of Intel-HEX images and the address linearizer.
//! - [`flasher`]: the flashing session of the primary controller.
//! - [`side_flasher`]: the chunk framer for the side controllers.
//! - [`hardware`], [`devices`], [`keyboards`]: the models of keyboard and
//!   their discovery among the serial ports.
//! - [`firmware_downloader`]: the choice among firmware releases and their
//!   files.
//! - [`error`]: the errors of all of these.

pub mod api;
pub mod color;
pub mod devices;
pub mod enums;
pub mod error;
pub mod firmware_downloader;
pub mod flasher;
pub mod focus;
pub mod hardware;
pub mod helpers;
pub mod ihex;
pub mod keyboards;
pub mod settings;
pub mod side_flasher;
pub mod text;
pub mod transport;
