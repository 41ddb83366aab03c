//! The device-command protocol: named capabilities a device advertises and
//! peers invoke. Send Tab is the one concrete command.

pub mod send_tab;
