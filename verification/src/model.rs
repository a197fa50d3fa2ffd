pub mod project_selection;
