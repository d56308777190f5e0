pub mod us_stock;
