pub mod geom;
pub mod draw_region;

pub use draw_region::DrawRegion;
pub use geom::{Loc, Size};
pub mod debug;
pub mod color;
pub mod ansi;
pub mod ch;
pub mod draw_cache;
pub mod color_names;
pub mod selectable;
pub mod border;
pub mod element;
pub mod stack;
pub mod text_style;
pub mod z_order;
pub mod button;
pub mod press;
pub mod color_store;
pub mod gradient;
pub mod table;
pub mod menu;
pub mod toggle;
pub mod view;
pub mod dropdown;
pub mod tabs;
pub mod window;
pub mod shadow;
pub mod term_mouse;
