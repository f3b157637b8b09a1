pub mod text;
pub mod web_url;
pub mod frontier;
pub mod parser;
pub mod storage;
pub mod fetcher;
pub mod robots;
pub mod crawler;
