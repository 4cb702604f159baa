//! Widget core of a character-terminal chat client: text metrics, the
//! measure / layout / redraw contract, containers and leaf widgets.
pub mod text;
pub mod view;
pub mod linear;
pub mod frame;
pub mod input;
pub mod buffered;
pub mod list_view;
pub mod terminal;
pub mod disco;
pub mod password;
pub mod leaf;
pub mod event;
