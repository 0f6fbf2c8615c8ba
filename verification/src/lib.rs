//! An interactive view of the processes listening on TCP ports: a verified
//! registry that joins the socket table with the process table, and a
//! verified session controller for selection, scrolling and the
//! confirm-before-terminate flow.

mod app;
mod input;
mod ports;
mod ui;

pub use app::{App, PopupButton, SCROLL_STEP, STATUS_DISPLAY_DURATION_MILLIS};
pub use input::{handle_main_key, handle_popup_key, KeyInput};
pub use ports::{
    build_port_list, get_listening_ports, PortInfo, ProcessEntry, SocketEntry, SocketState,
    TcpSocket,
};
pub use ui::wrap_text;
