pub mod cafe;
pub mod cards;
pub mod flower_box;
pub mod numbers;
