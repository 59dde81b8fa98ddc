//! Extraction of a cafeteria's daily menu from the HTML page that lists it:
//! meal groups, meals, three-tier prices and classified meal tags.

pub mod dom;
pub mod laws;
pub mod menu;
pub mod page;
pub mod price;
pub mod tag;
pub mod text;

pub use menu::{GroupSource, Meal, MealGroup, MealSource, MenuError, MensaMenu};
pub use page::MenuSelectors;
pub use price::MealPrice;
pub use tag::{Color, MealTag};
pub use text::{normalize_text, trim_str};
