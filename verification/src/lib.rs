use vstd::prelude::*;

pub mod text;
pub mod parameters;
pub mod parameter_tree;
pub mod electrical;
pub mod float_bits;
pub mod fuel;
pub mod fuel_transfer;
pub mod fuel_control;
pub mod fuel_quantity_management;
pub mod fdr_reader;
pub mod fdr_query;
pub mod fdr_csv;
pub mod time_format;
pub mod downsample;
pub mod export;
pub mod plot_panel;
pub mod fdr_store;
