//! Payloads of the boylove JSON API, one module per endpoint.
pub mod chapter_list;
pub mod daily_update;
pub mod home;
pub mod manga_page_result;
pub mod random;
