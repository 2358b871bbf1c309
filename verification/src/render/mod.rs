pub mod unit;
