pub mod stock_sector_ma20;
