//! Decision logic of a service that turns web pages and raw HTML into PDF documents.

pub mod browser;
pub mod config;
pub mod error;
pub mod handlers;
pub mod models;
pub mod network;
pub mod page_setup;
pub mod pdf_service;
pub mod text;
pub mod url_parts;

pub use config::Config;
pub use handlers::{generate_pdf, sanitize_filename};
pub use models::{ErrorResponse, HtmlPdfRequest, PdfRequest};
pub use pdf_service::PdfService;
