//! Settings consumed from configuration: the listening port, the headers to
//! add to proxied requests, and the list of upstream API domains with the
//! index of the one in use.
use vstd::prelude::*;
use crate::types::DownloadError;

verus! {

/// Index meaning "no book API chosen yet".
pub fn default_book_api_index() -> (r: i32)
    ensures
        r == -1,
{
    -1
}

/// Names of the configuration files.
pub struct ConfigFiles;

impl ConfigFiles {
    pub const SERVER: &'static str = "server.json";
    pub const APP: &'static str = "copymanga.json";
}

/// Headers added to every proxied request, as name and value.
pub struct RequestHeaders {
    pub headers: Vec<(String, String)>,
}

pub struct ServerConfig {
    pub server_port: u16,
    pub request_headers: Option<RequestHeaders>,
}

pub struct AppConfig {
    pub api_sources: Vec<String>,
    pub current_api_index: i32,
    pub book_api_sources: Vec<String>,
    pub current_book_api_index: i32,
}

pub struct ThemeConfig {
    pub is_dark_mode: bool,
    pub font_family: String,
}

pub struct ReaderConfig {
    pub layout: String,
    pub columns_per_row: u32,
    pub image_size: u32,
    pub image_gap: u32,
}

pub struct UiConfig {
    pub theme: ThemeConfig,
    pub reader: ReaderConfig,
}

/// The index actually used for a list of `len` sources: the configured one
/// when it is in range, else the first.
pub open spec fn effective_index(index: i32, len: nat) -> int {
    if 0 <= index < len {
        index as int
    } else {
        0
    }
}

fn pick(sources: &Vec<String>, index: i32, empty_message: &str) -> (r: Result<(String, bool), DownloadError>)
    ensures
        sources.len() == 0 <==> r is Err,
        r is Err ==> r->Err_0 is NotFound,
        r is Ok ==> r->Ok_0.0@ == sources@[effective_index(index, sources@.len())]@
            && r->Ok_0.1 == !(0 <= index < sources.len()),
{
    if sources.len() == 0 {
        return Err(DownloadError::NotFound(empty_message.to_owned()));
    }
    if 0 <= index && (index as usize) < sources.len() {
        Ok((sources[index as usize].clone(), false))
    } else {
        Ok((sources[0].clone(), true))
    }
}

impl AppConfig {
    /// The API domain in use, and whether the stored index was out of range
    /// (then the first source is used and the index should be stored as 0).
    /// Fails when no source is configured.
    pub fn current_api_domain(&self) -> (r: Result<(String, bool), DownloadError>)
        ensures
            self.api_sources.len() == 0 <==> r is Err,
            r is Err ==> r->Err_0 is NotFound,
            r is Ok ==> r->Ok_0.0@ == self.api_sources@[effective_index(self.current_api_index, self.api_sources@.len())]@
                && r->Ok_0.1 == !(0 <= self.current_api_index < self.api_sources.len()),
    {
        pick(&self.api_sources, self.current_api_index, "no API source configured")
    }

    /// The book API domain in use, and whether the stored index was out of
    /// range. Fails when no book source is configured.
    pub fn current_book_api_domain(&self) -> (r: Result<(String, bool), DownloadError>)
        ensures
            self.book_api_sources.len() == 0 <==> r is Err,
            r is Err ==> r->Err_0 is NotFound,
            r is Ok ==> r->Ok_0.0@ == self.book_api_sources@[effective_index(self.current_book_api_index, self.book_api_sources@.len())]@
                && r->Ok_0.1 == !(0 <= self.current_book_api_index < self.book_api_sources.len()),
    {
        pick(&self.book_api_sources, self.current_book_api_index, "no book API source configured")
    }
}

} // verus!
