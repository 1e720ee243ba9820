//! Generation of random data files: a menu-driven flow that validates user
//! input, draws random integers or fixed-point values in a closed range, and
//! lays the result out as text lines (`Count: <N>` header followed by one
//! value per line).

pub mod generate;
pub mod laws;
pub mod menu;
pub mod numfmt;
pub mod parse;
pub mod text;

pub use generate::MAX_VALUE;
pub use generate::MIN_VALUE;
pub use generate::generate_lines;

pub use menu::MenuAction;
pub use menu::menu_action;
pub use parse::DataType;
pub use parse::InputError;
pub use parse::parse_choice;
pub use parse::parse_data_type;
pub use parse::parse_element_count;
pub use parse::parse_filename;
pub use numfmt::header_line;
pub use numfmt::i32_to_dec;
pub use numfmt::millis_to_dec;
pub use numfmt::u32_to_dec;
pub use text::trim_str;
