pub mod cascade;
pub mod computed_style;
pub mod guarantees;
pub mod layout_object;
pub mod layout_view;
pub mod metrics;
