//! The rules and decisions of a scanner that looks for the subdomains of a
//! domain and for the files of a site.
pub mod answer_laws;
pub mod brute;
pub mod candidate;
pub mod content;
pub mod crawl;
pub mod crawl_laws;
pub mod end_laws;
pub mod extension;
pub mod host_laws;
pub mod html;
pub mod json;
pub mod link_laws;
pub mod list_lemmas;
pub mod manifest;
pub mod manifest_laws;
pub mod name_laws;
pub mod number;
pub mod options;
pub mod page_laws;
pub mod probe_laws;
pub mod references;
pub mod report_laws;
pub mod request_laws;
pub mod resolve;
pub mod results;
pub mod rule_laws;
pub mod scan;
pub mod scan_laws;
pub mod soft404;
pub mod step_laws;
pub mod subdomain;
pub mod text;
pub mod text_laws;
pub mod url_laws;
pub mod urls;
pub mod workers;
