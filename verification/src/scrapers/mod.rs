//! What a scrape of a series site finds.

pub mod fzscrape;
