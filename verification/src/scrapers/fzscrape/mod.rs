//! Seasons, episodes and download links of one series site.

pub mod fztv_scraper;
